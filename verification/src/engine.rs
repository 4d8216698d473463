//! The boundary to the template engine, the markdown converter and the
//! syntax highlighter. Each function here holds one step of outside work;
//! everything around these calls is verified code.
//!
//! The markdown conversion is deterministic in the text and the theme
//! name alone (syntaxes and themes are the bundled defaults), so its
//! success and its result carry names (`md_ok`, `md_html`) that the
//! calling contracts speak of. A render context is modelled by two maps:
//! its string-valued entries and its map-valued entries.

use vstd::prelude::*;

use crate::frontmatter::pairs_map;

verus! {

#[verifier::external_type_specification]
#[verifier::external_body]
pub struct ExTera(tera::Tera);

#[verifier::external_type_specification]
#[verifier::external_body]
pub struct ExContext(tera::Context);

/// The theme names bundled with the highlighter's default theme set,
/// as its documentation lists them.
pub open spec fn bundled_theme(name: Seq<char>) -> bool {
    ||| name == "base16-ocean.dark"@
    ||| name == "base16-eighties.dark"@
    ||| name == "base16-mocha.dark"@
    ||| name == "base16-ocean.light"@
    ||| name == "InspiredGitHub"@
    ||| name == "Solarized (dark)"@
    ||| name == "Solarized (light)"@
}

/// Does the highlighting pass succeed on the markdown `text` under the
/// bundled theme named `theme`?
pub uninterp spec fn md_ok(text: Seq<char>, theme: Seq<char>) -> bool;

/// The HTML that the markdown conversion with highlighting produces for
/// `text` under the bundled theme named `theme`.
pub uninterp spec fn md_html(text: Seq<char>, theme: Seq<char>) -> Seq<char>;

/// The string-valued entries of a render context.
pub uninterp spec fn ctx_strings(c: tera::Context) -> Map<Seq<char>, Seq<char>>;

/// The entries of a render context that hold a mapping from strings to
/// strings.
pub uninterp spec fn ctx_maps(c: tera::Context) -> Map<Seq<char>, Map<Seq<char>, Seq<char>>>;

/// A render context with no modelled entries.
pub open spec fn ctx_empty(c: tera::Context) -> bool {
    &&& ctx_strings(c) == Map::<Seq<char>, Seq<char>>::empty()
    &&& ctx_maps(c) == Map::<Seq<char>, Map<Seq<char>, Seq<char>>>::empty()
}

/// Relies on highlight_pulldown::PulldownHighlighter::new: it succeeds
/// exactly when `theme` names a theme of the bundled default theme set,
/// and its error is returned otherwise.
#[verifier::external_body]
pub(crate) fn theme_is_bundled(theme: &str) -> (r: Result<(), String>)
    ensures
        (r matches Ok(_)) <==> bundled_theme(theme@),
{
    match highlight_pulldown::PulldownHighlighter::new(theme) {
        Ok(_) => Ok(()),
        Err(e) => Err(format!("{e:?}")),
    }
}

/// Relies on highlight_pulldown::PulldownHighlighter::new (errors exactly
/// when `theme` is not bundled) and highlight (replaces each fenced code
/// block by a highlighted HTML block), and on pulldown_cmark::Parser::new
/// and html::push_html for the commonmark conversion. All sets involved
/// are the bundled defaults, so the outcome is a function of `text` and
/// `theme` alone.
#[verifier::external_body]
pub(crate) fn markdown_to_html(text: &str, theme: &str) -> (r: Result<String, String>)
    ensures
        (r matches Ok(_)) <==> (bundled_theme(theme@) && md_ok(text@, theme@)),
        r matches Ok(h) ==> h@ == md_html(text@, theme@),
{
    let hl = match highlight_pulldown::PulldownHighlighter::new(theme) {
        Ok(h) => h,
        Err(e) => return Err(format!("{e:?}")),
    };
    let parser = pulldown_cmark::Parser::new(text);
    let events = match hl.highlight(parser) {
        Ok(ev) => ev,
        Err(e) => return Err(format!("{e:?}")),
    };
    let mut html = String::new();
    pulldown_cmark::html::push_html(&mut html, events.into_iter());
    Ok(html)
}

/// Relies on tera::Tera::render_str: renders `input` as a one-off
/// template against `context`. The outcome depends on the engine's
/// loaded templates, so nothing is promised of it.
#[verifier::external_body]
pub(crate) fn render_inline(engine: &mut tera::Tera, input: &str, context: &tera::Context) -> (r:
    Result<String, String>) {
    match engine.render_str(input, context) {
        Ok(s) => Ok(s),
        Err(e) => Err(format!("{e:?}")),
    }
}

/// Relies on tera::Tera::render: renders the template named `name`
/// against `context`, and returns its error when the name is unknown to
/// the engine or rendering fails.
#[verifier::external_body]
pub(crate) fn render_template(engine: &tera::Tera, name: &str, context: &tera::Context) -> (r:
    Result<String, String>) {
    match engine.render(name, context) {
        Ok(s) => Ok(s),
        Err(e) => Err(format!("{e:?}")),
    }
}

/// Relies on tera::Context::new: an empty render context.
#[verifier::external_body]
pub(crate) fn new_context() -> (r: tera::Context)
    ensures
        ctx_empty(r),
{
    tera::Context::new()
}

/// Relies on tera::Context::clone.
#[verifier::external_body]
pub(crate) fn clone_context(context: &tera::Context) -> (r: tera::Context)
    ensures
        ctx_strings(r) == ctx_strings(*context),
        ctx_maps(r) == ctx_maps(*context),
{
    context.clone()
}

/// Relies on tera::Context::insert: binds `key` to the string `value`,
/// replacing whatever the key held; serializing a string slice cannot
/// fail.
#[verifier::external_body]
pub(crate) fn context_insert_str(context: &mut tera::Context, key: &str, value: &str)
    ensures
        ctx_strings(*final(context)) == ctx_strings(*old(context)).insert(key@, value@),
        ctx_maps(*final(context)) == ctx_maps(*old(context)).remove(key@),
{
    context.insert(key, value);
}

/// Relies on tera::Context::insert: binds `key` to the mapping the pairs
/// denote, a later pair shadowing an earlier one with the same key, and
/// replacing whatever the key held; serializing a map from strings to
/// strings cannot fail.
#[verifier::external_body]
pub(crate) fn context_insert_pairs(
    context: &mut tera::Context,
    key: &str,
    pairs: &Vec<(String, String)>,
)
    ensures
        ctx_strings(*final(context)) == ctx_strings(*old(context)).remove(key@),
        ctx_maps(*final(context)) == ctx_maps(*old(context)).insert(key@, pairs_map(pairs@)),
{
    let mut map = std::collections::HashMap::new();
    for (k, v) in pairs.iter() {
        map.insert(k.clone(), v.clone());
    }
    context.insert(key, &map);
}

} // verus!
