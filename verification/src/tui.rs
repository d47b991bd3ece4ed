//! The terminal interface.

pub mod api;
pub mod app;
pub mod ui;
