//! Helpers for SQL text, names and stored passwords.
pub mod sql;
pub mod string;
pub mod time;
pub mod base64;
pub mod crypto;
