//! Core of `awsdeck`, a terminal console over the AWS services one uses every day.
//!
//! Everything the console decides lives here, away from the terminal, the network and the disk:
//! what a key press does, what a reply from AWS changes on screen, what may reach AWS at all, and
//! how the replies themselves are digested.  Each module states what it does as contracts over
//! mathematical models and is verified against them.

pub mod action;
pub mod app;
pub mod aws;
pub mod calendar;
pub mod config;
pub mod effects;
pub mod json;
pub mod key;
pub mod list;
pub mod message;
pub mod settings;
pub mod text;
pub mod ui;
pub mod util;
pub mod views;
