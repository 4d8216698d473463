use roxy::paths::{is_hidden, output_dir_of, output_file_of, should_compile, should_copy, slug_of};

#[test]
fn slug_strips_extension() {
    assert_eq!(slug_of("blog/post.md").as_str(), "/blog/post");
}

#[test]
fn slug_of_top_level_index_is_root() {
    assert_eq!(slug_of("index.md").as_str(), "/");
}

#[test]
fn slug_of_nested_index_keeps_trailing_slash() {
    assert_eq!(slug_of("about/index.html").as_str(), "/about/");
}

#[test]
fn slug_tolerates_trailing_extension_qualifier() {
    assert_eq!(slug_of("notes/draft.md2").as_str(), "/notes/draft");
}

#[test]
fn slug_of_extensionless_path_keeps_its_text() {
    assert_eq!(slug_of("README").as_str(), "/README");
    assert_eq!(slug_of("index").as_str(), "/index");
}

#[test]
fn slug_index_check_is_case_sensitive() {
    assert_eq!(slug_of("docs/Index.md").as_str(), "/docs/Index");
}

#[test]
fn output_file_for_plain_page_descends_into_stem() {
    assert_eq!(output_file_of("about.md").as_str(), "about/index.html");
}

#[test]
fn output_file_for_top_level_index_stays_at_root() {
    assert_eq!(output_file_of("index.md").as_str(), "index.html");
}

#[test]
fn output_file_for_nested_page() {
    assert_eq!(output_file_of("blog/post.md").as_str(), "blog/post/index.html");
}

#[test]
fn output_dir_mirrors_the_file_rule() {
    assert_eq!(output_dir_of("about.md").as_str(), "about");
    assert_eq!(output_dir_of("index.md").as_str(), "");
    assert_eq!(output_dir_of("blog/post.md").as_str(), "blog/post");
}

#[test]
fn output_path_index_check_ignores_ascii_case() {
    assert_eq!(output_file_of("docs/INDEX.md").as_str(), "docs/index.html");
}

#[test]
fn hidden_files_are_detected_by_final_segment() {
    assert!(is_hidden(".hidden"));
    assert!(is_hidden("blog/.draft.md"));
    assert!(!is_hidden("blog/post.md"));
    assert!(!is_hidden("dot.in.name.md"));
}

#[test]
fn recognized_extensions_compile() {
    assert!(should_compile("a.md"));
    assert!(should_compile("a/b.html"));
    assert!(should_compile("a.tera"));
    assert!(should_compile("README"));
}

#[test]
fn hidden_or_unrecognized_paths_never_compile() {
    assert!(!should_compile(".a.md"));
    assert!(!should_compile("blog/.post.md"));
    assert!(!should_compile("style.css"));
    assert!(!should_compile("img/logo.png"));
}

#[test]
fn static_pass_copies_exactly_the_unrecognized_extensions() {
    assert!(should_copy("style.css"));
    assert!(should_copy("img/logo.png"));
    assert!(!should_copy("a.md"));
    assert!(!should_copy("a/b.tera"));
    assert!(!should_copy(".secret.css"));
    assert!(!should_copy("README"));
}
