//! The compiled unit of the pipeline: one content item per accepted
//! source file, immutable once constructed.

use vstd::prelude::*;

use crate::frontmatter::Frontmatter;
use crate::paths::{slug_chars, slug_of};

verus! {

/// One compiled content item.
pub struct Content {
    /// Relative, slash-separated source path; the item's unique key.
    pub path: String,
    /// Public URL path derived from `path`; always begins with `/`.
    pub slug: String,
    /// The item's metadata mapping.
    pub frontmatter: Frontmatter,
    /// The fully rendered HTML body.
    pub content: String,
}

impl Content {
    /// Assemble an item for `path`: the slug is derived from the path,
    /// the metadata and body are taken as given.
    pub fn new(path: String, frontmatter: Frontmatter, content: String) -> (r: Content)
        ensures
            r.path@ == path@,
            r.slug@ == slug_chars(path@),
            r.frontmatter@ == frontmatter@,
            r.frontmatter.pairs@ == frontmatter.pairs@,
            r.content@ == content@,
    {
        let slug = slug_of(path.as_str());
        Content { path, slug, frontmatter, content }
    }
}

} // verus!
