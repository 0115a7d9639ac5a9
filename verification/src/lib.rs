//! Verified core of the flood.md MCP server: text compaction, repository
//! path scoping, local Git context selection and task vocabulary.

mod chars;
pub mod stable;
/// Paths as Unix writes them: components are separated by `/`, and a path
/// is absolute when it starts with `/`. Windows forms (drive letters, `\`
/// separators) are not modelled; the library serves Unix hosts.
pub mod paths;
pub mod unicode;
pub mod order;
pub mod todos;
pub mod gitctx;
pub mod diffs;
pub mod vocab;
pub mod decimal;
pub mod resources;
pub mod digest;
pub mod readiness;
pub mod git;
pub mod text;
pub mod hashing;
pub mod context;
pub mod receipt;
pub mod materials;
pub mod agents;
pub mod triage;
pub mod search;
pub mod catalog;
pub mod github;
pub mod overview;
pub mod updates;
pub mod sources;
pub mod batch;
pub mod selfcheck;
pub mod activity;
pub mod walk;
pub mod telegram;
pub mod json;
pub mod connectors;


