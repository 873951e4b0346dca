//! Merges independently authored text layers ("mods") against a common
//! baseline into one accumulated output tree, resolving textual conflicts.
//!
//! The core pipeline: a three-way merge of baseline, accumulated output and
//! layer text (through an external merge primitive), segmentation of
//! conflict-marked text into plain and conflict regions, a deterministic
//! heuristic that resolves regions where one side is blank, and dispatch to
//! one of three fallback strategies for whatever the heuristic leaves.
//! All I/O (walking layer trees, reading and writing files, spawning an
//! editor, watching for file changes) lives outside this crate; the functions
//! here work on plain text and values.

pub mod config;
pub mod markers;
pub mod merge;
pub mod message;
pub mod prompt;
pub mod resolver;
pub mod roundtrip;
