//! Conversation orchestration core: a user-editable conversation history kept
//! consistent under tool execution, cancellation and partial failure, together
//! with the render adapters that turn it into wire payloads or UI events and
//! the turn state machine that drives the request / tool-call / response loop.

pub mod chat;
pub mod error;
pub mod file_handler;
pub mod integrity;
pub mod interaction;
pub mod openrouter;
pub mod search;
pub mod settings;
pub mod textfmt;
pub mod tools;
pub mod ui_events;
