//! The networked chat client: its state, the line editor, text layout,
//! the slash commands and the decisions of its event loop.
pub mod api;
pub mod app;
pub mod commands;
pub mod draw;
pub mod events;
pub mod input;
pub mod text;
