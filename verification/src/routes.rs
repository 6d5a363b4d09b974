//! The request handlers.

pub mod tasks;
