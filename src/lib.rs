//! Diagnostic pipeline of a PHP_CodeSniffer language server.
//!
//! - `store`: open documents, LZ4-compressed, with a SHA-256 fingerprint
//!   and a memory counter that always equals the total payload size.
//! - `cache`: results of earlier runs, served while the fingerprint holds.
//! - `governor`: the steps of one run of the tool, its arguments and limits.
//! - `json` and `report`: the tool's JSON report turned into diagnostics.
//! - `ranges`: the span each diagnostic highlights on its line.
//! - `server`: the request handling that ties these together.
//! - `extension`: choices the editor extension makes when it starts the
//!   server.

pub mod cache;
pub mod extension;
pub mod governor;
pub mod json;
pub mod ranges;
pub mod report;
pub mod server;
pub mod store;
pub mod table;
pub mod text;
mod tools;

pub use tools::{config_file_names, pick_phpcs_path, pick_tool_path, PhpTool};
