//! The types shared by every part: database kinds, settings and errors.
pub mod config;
pub mod error;
pub mod types;
