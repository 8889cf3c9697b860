//! Decisions behind injecting chunk ids and release ids into minified JavaScript builds.
//!
//! Reading files, asking git, talking to the release API and writing files back happen outside;
//! this crate is handed what was read and returns what is to be written.

pub mod args;
pub mod digest;
pub mod error;
pub mod ids;
pub mod inject;
pub mod inject_laws;
pub mod json;
pub mod manifest;
pub mod manifest_laws;
pub mod order;
pub mod pairs;
pub mod paths;
pub mod release;
pub mod release_laws;
pub mod repair;
pub mod repair_laws;
pub mod rewritten;
pub mod rewritten_laws;
pub mod run;
pub mod run_laws;
pub mod text;
pub mod text_laws;
pub mod urls;
