//! Verified core of the Read Selected Text desktop app.

pub mod commands;
pub mod download;
pub mod http;
pub mod local;
pub mod paths;
pub mod piper;
pub mod platform;
pub mod settings;
pub mod shell;
pub mod text;
pub mod tts;
