//! A small knowledge-capture library: history records built around a URL,
//! free-text ideas with optional reminders, reference source lists, and the
//! manifest that points at the flat CSV files holding them all.

pub mod date;
pub mod error;
pub mod history;
pub mod ideas;
pub mod manifest;
pub mod template;
pub mod source;
pub mod text;

pub(crate) mod csvio;
