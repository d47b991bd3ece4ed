//! What the operations of the library are for, as laws over all inputs.

pub mod access;
pub mod engine;
pub mod json;
pub mod memory;
pub mod packing;
pub mod rag;
pub mod screen;
pub mod service;
pub mod settings;
pub mod terminal;
pub mod text;
pub mod tools;
