use roxy::content::Content;
use roxy::frontmatter::Frontmatter;
use roxy::section::compile_content_map;

fn item(path: &str) -> Content {
    Content::new(path.to_string(), Frontmatter::new(), String::new())
}

#[test]
fn items_group_under_their_first_path_segment() {
    let contents = vec![item("blog/post.md"), item("standalone.md"), item("blog/other.md")];
    let index = compile_content_map(&contents);
    let blog = index.get("blog").unwrap();
    assert_eq!(blog.as_slice(), &[0, 2]);
    let default = index.get("default").unwrap();
    assert_eq!(default.as_slice(), &[1]);
}

#[test]
fn default_bucket_exists_even_when_empty() {
    let contents = vec![item("blog/post.md")];
    let index = compile_content_map(&contents);
    let default = index.get("default").unwrap();
    assert!(default.is_empty());
}

#[test]
fn default_bucket_holds_only_top_level_items() {
    let contents = vec![item("default/inside.md"), item("top.md")];
    let index = compile_content_map(&contents);
    let default = index.get("default").unwrap();
    assert_eq!(default.as_slice(), &[1]);
}

#[test]
fn deeper_paths_still_group_by_first_segment() {
    let contents = vec![item("docs/guide/intro.md"), item("docs/ref.md")];
    let index = compile_content_map(&contents);
    let docs = index.get("docs").unwrap();
    assert_eq!(docs.as_slice(), &[0, 1]);
    assert!(index.get("guide").is_none());
}
