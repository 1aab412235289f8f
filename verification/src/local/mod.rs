//! The offline demo chat: one conversation kept in memory, with the same
//! line editor and text layout as the networked client.
pub mod app;
pub mod commands;
pub mod draw;
pub mod input;
pub mod render;
pub mod text;
