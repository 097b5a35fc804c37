//! The server for ESLint.

pub mod backend;
pub mod configuring;
pub mod laws;
pub mod reporting;
pub mod resolver;
