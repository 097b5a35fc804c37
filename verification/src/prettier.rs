//! The server for Prettier.

pub mod backend;
pub mod formatter;
pub mod laws;
