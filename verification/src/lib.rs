//! Bridge between a chat front end and a command-line assistant: how the
//! assistant is located and launched, how a finished run is classified, and
//! the conversation store with its transcript export.

pub mod json;
pub mod text;
pub mod classify;
pub mod invoke;
pub mod resolve;
pub mod config;
pub mod rows;
pub mod store;
pub mod export;
