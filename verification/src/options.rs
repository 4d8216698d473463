//! The pipeline's run options, as plain values.

use vstd::prelude::*;

verus! {

/// Where a run reads from and writes to, and which highlighting theme
/// it uses.
pub struct Options {
    /// The output root.
    pub output: String,
    /// The content root.
    pub content: String,
    /// The layouts directory.
    pub layouts: String,
    /// The highlighting theme name.
    pub theme: String,
}

} // verus!
