//! A small static-site pipeline: metadata-header parsing, markdown
//! conversion with syntax highlighting, slug and output-path derivation,
//! section grouping, and page rendering.
//!
//! File walking, reading and writing live outside this library; every
//! function here works on plain values and carries a contract.

pub mod compile;
pub mod content;
pub mod engine;
pub mod frontmatter;
pub mod options;
pub mod paths;
pub mod section;
pub mod text;
