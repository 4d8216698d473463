use roxy::compile::Compiler;
use tera::Tera;

const THEME: &str = "base16-ocean.dark";

fn compiler() -> Compiler {
    Compiler::new(Tera::default(), THEME).unwrap()
}

#[test]
fn unknown_theme_is_rejected_at_construction() {
    assert!(Compiler::new(Tera::default(), "no-such-theme").is_err());
    assert!(Compiler::new(Tera::default(), "Solarized (dark)").is_ok());
}

#[test]
fn header_and_body_flow_into_the_item() {
    let mut c = compiler();
    let mut log = Vec::new();
    let text = "---\ntitle: Hello\n---\nBody text\n";
    let item = c.compile_source("post.md", text, &mut log).unwrap().unwrap();
    assert_eq!(item.path, "post.md");
    assert_eq!(item.slug, "/post");
    assert_eq!(item.frontmatter.get("title").unwrap().as_str(), "Hello");
    assert!(item.content.contains("<p>Body text</p>"));
    assert!(log.is_empty());
}

#[test]
fn no_header_body_is_the_rendering_of_the_whole_file() {
    let mut c = compiler();
    let mut log = Vec::new();
    let text = "Hello *world*\n";
    let item = c.compile_source("plain.md", text, &mut log).unwrap().unwrap();
    let mut direct = String::new();
    pulldown_cmark::html::push_html(&mut direct, pulldown_cmark::Parser::new(text));
    assert_eq!(item.content, direct);
    assert_eq!(item.frontmatter.pairs.len(), 0);
}

#[test]
fn hidden_and_unrecognized_files_produce_no_item() {
    let mut c = compiler();
    let mut log = Vec::new();
    assert!(c.compile_source(".draft.md", "x", &mut log).unwrap().is_none());
    assert!(c.compile_source("blog/.post.md", "x", &mut log).unwrap().is_none());
    assert!(c.compile_source("style.css", "x", &mut log).unwrap().is_none());
}

#[test]
fn fenced_code_blocks_are_highlighted() {
    let mut c = compiler();
    let mut log = Vec::new();
    let text = "```rust\nlet x = 1;\n```\n";
    let item = c.compile_source("code.md", text, &mut log).unwrap().unwrap();
    assert!(item.content.contains("<pre"));
    assert!(item.content.contains("background-color"));
    assert!(!item.content.contains("<code"));
}

#[test]
fn inline_expressions_are_rendered_in_the_body() {
    let mut c = compiler();
    let mut log = Vec::new();
    let text = "Value: {{ 1 + 1 }}\n";
    let item = c.compile_source("calc.md", text, &mut log).unwrap().unwrap();
    assert!(item.content.contains("Value: 2"));
    assert!(log.is_empty());
}

#[test]
fn failing_inline_pass_keeps_unrendered_html_and_logs() {
    let mut c = compiler();
    let mut log = Vec::new();
    let text = "before {% no_such_tag %} after\n";
    let item = c.compile_source("bad.md", text, &mut log).unwrap().unwrap();
    assert!(item.content.contains("before"));
    assert!(item.content.contains("after"));
    assert_eq!(log.len(), 1);
}

#[test]
fn item_slug_follows_the_path_rule() {
    let mut c = compiler();
    let mut log = Vec::new();
    let item = c.compile_source("about/index.html", "hi", &mut log).unwrap().unwrap();
    assert_eq!(item.slug, "/about/");
}
