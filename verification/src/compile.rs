//! The per-file compilation pass and the per-item materialization pass.
//!
//! The compiler turns one source file into a content item: it filters
//! hidden and non-content paths, splits off the metadata header, converts
//! the body from markdown (highlighting fenced code blocks), applies one
//! inline self-render pass, and derives the slug. The materializer plans
//! one page per item: output location, layout choice, render context,
//! and rendered HTML.

use vstd::prelude::*;

use crate::content::Content;
use crate::engine::{
    bundled_theme, clone_context, context_insert_pairs, context_insert_str, ctx_maps, ctx_strings,
    markdown_to_html, md_html, md_ok, new_context, render_inline, render_template,
    theme_is_bundled,
};
use crate::frontmatter::{body_chars, frontmatter_map, read_frontmatter, Frontmatter};
use crate::paths::{
    compiled_path, out_dir_chars, out_file_chars, output_dir_of, output_file_of, should_compile,
    slug_chars,
};

verus! {

/// The layout a metadata mapping selects: the value of its `layout` key,
/// or `index.html` when the key is absent.
pub open spec fn layout_chars(m: Map<Seq<char>, Seq<char>>) -> Seq<char> {
    if m.dom().contains("layout"@) {
        m["layout"@]
    } else {
        "index.html"@
    }
}

/// The layout that `fm` selects.
pub fn layout_of(fm: &Frontmatter) -> (r: String)
    ensures
        r@ == layout_chars(fm@),
{
    match fm.get("layout") {
        Some(v) => v.clone(),
        None => String::from_str("index.html"),
    }
}

/// The model of a render context: its string-valued entries, and its
/// entries holding a mapping from strings to strings.
pub struct CtxModel {
    pub strings: Map<Seq<char>, Seq<char>>,
    pub maps: Map<Seq<char>, Map<Seq<char>, Seq<char>>>,
}

/// One planned output page: where it goes, what was handed to the
/// engine, and the outcome of its render.
pub struct Page {
    /// The source path of the item the page was planned for.
    pub path: String,
    /// The page's directory, relative to the output root.
    pub dir: String,
    /// The page's file, relative to the output root.
    pub file: String,
    /// The layout name handed to the engine for this page.
    pub layout: String,
    /// The model of the render context handed to the engine.
    pub context: Ghost<CtxModel>,
    /// The rendered HTML, or the render error to report for this item.
    pub outcome: Result<String, String>,
}

/// The compilation pipeline around a template engine and a bundled
/// highlighting theme.
pub struct Compiler {
    engine: tera::Tera,
    theme: String,
}

impl Compiler {
    /// The name of the highlighting theme this compiler uses.
    pub closed spec fn theme_name(&self) -> Seq<char> {
        self.theme@
    }

    /// Wrap a loaded template engine and a highlighting theme.
    ///
    /// Construction succeeds exactly when `theme` names a bundled theme;
    /// any other theme is unusable, which is fatal, and the highlighter's
    /// error is handed back unchanged.
    pub fn new(engine: tera::Tera, theme: &str) -> (r: Result<Compiler, String>)
        ensures
            (r matches Ok(_)) <==> bundled_theme(theme@),
            r matches Ok(c) ==> c.theme_name() == theme@,
    {
        match theme_is_bundled(theme) {
            Ok(_) => Ok(Compiler { engine, theme: String::from_str(theme) }),
            Err(e) => Err(e),
        }
    }

    /// Compile one source file into a content item.
    ///
    /// A hidden or non-content path yields no item, and nothing else
    /// does. An error comes exactly when an accepted file's body cannot
    /// be converted — the theme is not bundled or highlighting fails —
    /// and is fatal to the run. For an accepted file, the item carries
    /// the path, the slug derived from it, and exactly the file's header
    /// mapping; its body is the markdown conversion of the text after the
    /// header, passed once through the engine's inline render: when that
    /// inline pass fails, the un-rendered conversion is kept and exactly
    /// one failure line joins `log`, and otherwise `log` is unchanged.
    pub fn compile_source(&mut self, path: &str, text: &str, log: &mut Vec<String>) -> (r: Result<
        Option<Content>,
        String,
    >)
        ensures
            (r matches Ok(None)) <==> !compiled_path(path@),
            (r matches Err(_)) <==> (compiled_path(path@) && !(bundled_theme(
                old(self).theme_name(),
            ) && md_ok(body_chars(text@), old(self).theme_name()))),
            r matches Ok(Some(item)) ==> {
                &&& item.path@ == path@
                &&& item.slug@ == slug_chars(path@)
                &&& item.frontmatter@ == frontmatter_map(text@)
            },
            r matches Ok(Some(item)) ==> (final(log)@ == old(log)@ || {
                &&& final(log)@.len() == old(log)@.len() + 1
                &&& final(log)@.subrange(0, old(log)@.len() as int) == old(log)@
                &&& item.content@ == md_html(body_chars(text@), old(self).theme_name())
            }),
            !(r matches Ok(Some(_))) ==> final(log)@ == old(log)@,
            final(self).theme_name() == old(self).theme_name(),
    {
        if !should_compile(path) {
            return Ok(None);
        }
        let (fm, body_ix) = read_frontmatter(text);
        let n: usize = text.unicode_len();
        let body: &str = text.substring_char(body_ix, n);
        proof {
            assert(body@ == body_chars(text@));
        }
        let html = match markdown_to_html(body, self.theme.as_str()) {
            Ok(h) => h,
            Err(e) => {
                return Err(e);
            },
        };
        let empty = new_context();
        let ghost log_before = log@;
        let rendered = match render_inline(&mut self.engine, html.as_str(), &empty) {
            Ok(s) => s,
            Err(e) => {
                log.push(e);
                proof {
                    assert(log@.subrange(0, log_before.len() as int) =~= log_before);
                }
                html
            },
        };
        let item = Content::new(String::from_str(path), fm, rendered);
        Ok(Some(item))
    }

    /// Plan one output page per item, in order.
    ///
    /// Every item is attempted: each page carries the item's source path,
    /// its output location derived from the path alone, the layout its
    /// metadata selects (`index.html` when it names none), and the model
    /// of the context handed to the engine — a fresh copy of `base`
    /// overlaid with the item's `path`, `slug` and `content` strings and
    /// its `frontmatter` mapping, the item winning on key collision. The
    /// outcome is the rendered HTML, or the error of a render that
    /// failed; one failing item never touches its siblings' pages.
    pub fn render_pages(&self, base: &tera::Context, contents: &Vec<Content>) -> (r: Vec<Page>)
        ensures
            r@.len() == contents@.len(),
            forall|i: int|
                0 <= i < r@.len() ==> {
                    &&& (#[trigger] r@[i]).path@ == contents@[i].path@
                    &&& r@[i].dir@ == out_dir_chars(contents@[i].path@)
                    &&& r@[i].file@ == out_file_chars(contents@[i].path@)
                    &&& r@[i].layout@ == layout_chars(contents@[i].frontmatter@)
                    &&& r@[i].context@.strings == ctx_strings(*base).insert(
                        "path"@,
                        contents@[i].path@,
                    ).insert("slug"@, contents@[i].slug@).insert(
                        "content"@,
                        contents@[i].content@,
                    ).remove("frontmatter"@)
                    &&& r@[i].context@.maps == ctx_maps(*base).remove("path"@).remove(
                        "slug"@,
                    ).remove("content"@).insert("frontmatter"@, contents@[i].frontmatter@)
                },
    {
        let mut pages: Vec<Page> = Vec::new();
        let mut i: usize = 0;
        while i < contents.len()
            invariant
                i <= contents@.len(),
                pages@.len() == i,
                forall|t: int|
                    0 <= t < i ==> {
                        &&& (#[trigger] pages@[t]).path@ == contents@[t].path@
                        &&& pages@[t].dir@ == out_dir_chars(contents@[t].path@)
                        &&& pages@[t].file@ == out_file_chars(contents@[t].path@)
                        &&& pages@[t].layout@ == layout_chars(contents@[t].frontmatter@)
                        &&& pages@[t].context@.strings == ctx_strings(*base).insert(
                            "path"@,
                            contents@[t].path@,
                        ).insert("slug"@, contents@[t].slug@).insert(
                            "content"@,
                            contents@[t].content@,
                        ).remove("frontmatter"@)
                        &&& pages@[t].context@.maps == ctx_maps(*base).remove("path"@).remove(
                            "slug"@,
                        ).remove("content"@).insert("frontmatter"@, contents@[t].frontmatter@)
                    },
            decreases contents@.len() - i,
        {
            let item = &contents[i];
            let context = self.item_context(base, item);
            let layout = layout_of(&item.frontmatter);
            let outcome = render_template(&self.engine, layout.as_str(), &context);
            let page = Page {
                path: clone_string(&item.path),
                dir: output_dir_of(item.path.as_str()),
                file: output_file_of(item.path.as_str()),
                layout,
                context: Ghost(CtxModel { strings: ctx_strings(context), maps: ctx_maps(context) }),
                outcome,
            };
            pages.push(page);
            i = i + 1;
        }
        pages
    }

    /// A fresh copy of `base` overlaid with the item's own fields; each
    /// insert replaces whatever its key held, so the item wins on
    /// collision.
    fn item_context(&self, base: &tera::Context, item: &Content) -> (r: tera::Context)
        ensures
            ctx_strings(r) == ctx_strings(*base).insert("path"@, item.path@).insert(
                "slug"@,
                item.slug@,
            ).insert("content"@, item.content@).remove("frontmatter"@),
            ctx_maps(r) == ctx_maps(*base).remove("path"@).remove("slug"@).remove(
                "content"@,
            ).insert("frontmatter"@, item.frontmatter@),
    {
        let mut context = clone_context(base);
        context_insert_str(&mut context, "path", item.path.as_str());
        context_insert_str(&mut context, "slug", item.slug.as_str());
        context_insert_str(&mut context, "content", item.content.as_str());
        context_insert_pairs(&mut context, "frontmatter", &item.frontmatter.pairs);
        context
    }
}

/// An owned copy of a string.
fn clone_string(s: &String) -> (r: String)
    ensures
        r@ == s@,
{
    s.clone()
}

} // verus!
