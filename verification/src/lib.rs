//! Data structures and notification rules with machine-checked contracts.

pub mod common;
pub mod guide;
pub mod server;
pub mod web;
