//! Verified core of a Backlog tool server and command-line client.
//!
//! The library holds the logic that decides and computes: file format
//! detection, the project cache, custom-field conversion, error mapping,
//! identifier-list parsing, the reading of command options, the ordering of
//! disk usage, the lines of a document tree, tool naming and the display
//! helpers. Network access, the protocol plumbing and printing live in the
//! surrounding application.

pub mod text;
pub mod decimal;
pub mod project_cache;
pub mod ids;
pub mod error;
pub mod json;
pub mod custom_field_converter;
pub mod file_utils;
pub mod cli_args;
pub mod disk_usage;
pub mod tool_names;
pub mod document_scope;
pub mod field_plan;
pub mod document_query;
pub mod issue_requests;
pub mod document_tree;
