[package]
name = "awsdeck"
version = "0.1.0"
edition = "2021"
publish = false

[dependencies]
arboard = { version = "3", default-features = false }
aws-config = { version = "1", default-features = false, features = ["rt-tokio", "behavior-version-latest", "credentials-process", "default-https-client", "sso"] }
aws-sdk-cloudwatchlogs = { version = "1", default-features = false, features = ["rt-tokio"] }
aws-sdk-eventbridge = { version = "1", default-features = false, features = ["rt-tokio"] }
aws-sdk-sfn = { version = "1", default-features = false, features = ["rt-tokio"] }
aws-sdk-sqs = { version = "1", default-features = false, features = ["rt-tokio"] }
aws-sdk-sts = { version = "1", default-features = false, features = ["rt-tokio"] }
color-eyre = "0.6"
futures = "0.3"
open = "5"
ratatui = "=0.30.2"
serde = { version = "=1.0.229", features = ["derive"] }
serde_json = "=1.0.154"
tokio = { version = "1", features = ["full"] }
toml = "=1.1.8"
tui-input = "=0.15.5"
