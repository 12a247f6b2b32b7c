//! The environment that the console works against.

pub mod context;
