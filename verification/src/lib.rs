//! Core of the HexAi assistant.

pub mod auth;
pub mod builder;
pub mod config;
pub mod engine;
pub mod error;
pub mod json;
pub mod launcher;
pub mod laws;
pub mod memory;
pub mod outside;
pub mod passages;
pub mod profiler;
pub mod rag;
pub mod router;
pub mod state;
pub mod static_gui;
pub mod store;
pub mod text;
pub mod tools;
pub mod tui;
