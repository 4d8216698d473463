use roxy::compile::{layout_of, Compiler};
use roxy::content::Content;
use roxy::frontmatter::Frontmatter;
use tera::{Context, Tera};

const THEME: &str = "base16-ocean.dark";

fn item(path: &str, fm: Frontmatter, content: &str) -> Content {
    Content::new(path.to_string(), fm, content.to_string())
}

fn engine_with(templates: &[(&str, &str)]) -> Tera {
    let mut tera = Tera::default();
    for (name, body) in templates {
        tera.add_raw_template(name, body).unwrap();
    }
    tera.autoescape_on(vec![]);
    tera
}

#[test]
fn layout_defaults_to_index_html() {
    let fm = Frontmatter::new();
    assert_eq!(layout_of(&fm).as_str(), "index.html");
    let mut named = Frontmatter::new();
    named.insert("layout".to_string(), "other.html".to_string());
    assert_eq!(layout_of(&named).as_str(), "other.html");
}

#[test]
fn pages_carry_the_output_locations() {
    let c = Compiler::new(engine_with(&[("index.html", "{{ content }}")]), THEME).unwrap();
    let contents = vec![
        item("about.md", Frontmatter::new(), "<p>a</p>"),
        item("index.md", Frontmatter::new(), "<p>i</p>"),
        item("blog/post.md", Frontmatter::new(), "<p>b</p>"),
    ];
    let pages = c.render_pages(&Context::new(), &contents);
    assert_eq!(pages.len(), 3);
    assert_eq!(pages[0].file, "about/index.html");
    assert_eq!(pages[1].file, "index.html");
    assert_eq!(pages[2].file, "blog/post/index.html");
    assert_eq!(pages[0].dir, "about");
    assert_eq!(pages[1].dir, "");
    assert_eq!(pages[2].dir, "blog/post");
    assert_eq!(pages[0].layout, "index.html");
}

#[test]
fn missing_layout_fails_its_item_and_leaves_siblings_rendering() {
    let c = Compiler::new(engine_with(&[("index.html", "OK {{ content }}")]), THEME).unwrap();
    let mut bad = Frontmatter::new();
    bad.insert("layout".to_string(), "missing.html".to_string());
    let contents = vec![
        item("broken.md", bad, "<p>x</p>"),
        item("fine.md", Frontmatter::new(), "<p>y</p>"),
    ];
    let pages = c.render_pages(&Context::new(), &contents);
    assert_eq!(pages.len(), 2);
    assert_eq!(pages[0].layout, "missing.html");
    assert_eq!(pages[1].layout, "index.html");
    assert!(pages[0].outcome.is_err());
    assert_eq!(pages[1].outcome.as_ref().unwrap().as_str(), "OK <p>y</p>");
}

#[test]
fn item_fields_win_over_base_context_on_collision() {
    let c = Compiler::new(engine_with(&[("index.html", "{{ content }}|{{ extra }}")]), THEME)
        .unwrap();
    let mut base = Context::new();
    base.insert("content", "FROM-BASE");
    base.insert("extra", "E");
    let contents = vec![item("a.md", Frontmatter::new(), "<p>mine</p>")];
    let pages = c.render_pages(&base, &contents);
    assert_eq!(pages[0].outcome.as_ref().unwrap().as_str(), "<p>mine</p>|E");
}

#[test]
fn templates_see_path_slug_and_metadata() {
    let c = Compiler::new(
        engine_with(&[("index.html", "{{ path }};{{ slug }};{{ frontmatter.author }}")]),
        THEME,
    )
    .unwrap();
    let mut fm = Frontmatter::new();
    fm.insert("author".to_string(), "kit".to_string());
    let contents = vec![item("blog/post.md", fm, "<p>b</p>")];
    let pages = c.render_pages(&Context::new(), &contents);
    assert_eq!(pages[0].outcome.as_ref().unwrap().as_str(), "blog/post.md;/blog/post;kit");
}
