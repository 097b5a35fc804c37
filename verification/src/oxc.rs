//! The server for oxlint and oxfmt.

pub mod discovery;
pub mod finding;
pub mod laws;
pub mod proxy;
pub mod routing;
pub mod session;
pub mod starting;
