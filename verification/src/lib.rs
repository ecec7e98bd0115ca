//! Recall: a clipboard history. The library holds what the application
//! decides: how clipboard content is recorded and deduplicated, how stored
//! clips are classified, searched and copied back in other forms, how the
//! event writer batches its work, and how the configuration is read.

pub mod class;
pub mod classification;
pub mod clipboard;
pub mod clipboard_format;
pub mod config;
pub mod digits;
pub mod error;
pub mod events;
pub mod query;
pub mod record;
pub mod service;
pub mod text;
pub mod tray;
pub mod writer;
