//! Core of an interactive terminal client for a SQLite database file:
//! a session/transaction manager, a pagination engine that rewrites
//! `SELECT` statements into bounded pages, and a line-editor/history
//! subsystem with a bounded, deduplicated command history.

mod error;
pub mod actions;
pub mod notify;
pub mod pipeline;
pub mod query;
pub mod screens;
pub mod selection;
pub mod session;
pub mod table;
pub mod terminal;
pub mod text;

pub use error::SqlError;
