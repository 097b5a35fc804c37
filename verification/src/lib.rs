//! The logic of four language servers for Helix: for ESLint, for Prettier, for the native TypeScript
//! compiler, and for oxlint and oxfmt.

pub mod disk;
pub mod disk_laws;
pub mod eslint;
pub mod fakes;
pub mod fakes_laws;
pub mod hub;
pub mod hub_laws;
pub mod json;
pub mod json_laws;
pub mod json_text;
pub mod lsp;
pub mod lsp_laws;
pub mod oxc;
pub mod package;
pub mod package_laws;
pub mod params;
pub mod params_laws;
pub mod path;
pub mod path_laws;
pub mod path_meaning;
pub mod position;
pub mod position_laws;
pub mod prettier;
pub mod project;
pub mod search;
pub mod search_laws;
pub mod sort;
pub mod table;
pub mod text;
pub mod text_laws;
pub mod tsgo;
pub mod url_text;
pub mod views;
pub mod xtask;
pub mod xtask_laws;
