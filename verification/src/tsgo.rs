//! The server for the native TypeScript compiler.

pub mod discovery;
pub mod file_watcher;
pub mod finding;
pub mod laws;
pub mod proxy;
pub mod routing;
pub mod session;
pub mod starting;
pub mod walk;
pub mod watching;
