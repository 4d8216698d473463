use roxy::frontmatter::{read_frontmatter, Frontmatter};

#[test]
fn no_header_means_empty_metadata_and_full_body() {
    let text = "Hello world\nSecond line\n";
    let (fm, body) = read_frontmatter(text);
    assert_eq!(fm.pairs.len(), 0);
    assert_eq!(body, 0);
    assert!(fm.get("title").is_none());
}

#[test]
fn header_is_parsed_and_body_starts_after_it() {
    let text = "---\ntitle: Hello\n---\nBody text\n";
    let (fm, body) = read_frontmatter(text);
    assert_eq!(fm.get("title").unwrap().as_str(), "Hello");
    assert_eq!(fm.pairs.len(), 1);
    assert_eq!(&text[body..], "Body text\n");
}

#[test]
fn keys_and_values_are_trimmed() {
    let text = "---\n  spaced key  :   padded value \t\n---\nbody";
    let (fm, _) = read_frontmatter(text);
    assert_eq!(fm.get("spaced key").unwrap().as_str(), "padded value");
}

#[test]
fn trimming_covers_the_unicode_whitespace_set() {
    let text = "---\nk\u{000B}: \u{00A0}v\u{2003}\n---\n";
    let (fm, _) = read_frontmatter(text);
    assert_eq!(fm.get("k").unwrap().as_str(), "v");
}

#[test]
fn lines_without_colon_are_skipped() {
    let text = "---\nno colon here\ntitle: T\n---\nbody";
    let (fm, body) = read_frontmatter(text);
    assert_eq!(fm.pairs.len(), 1);
    assert_eq!(fm.get("title").unwrap().as_str(), "T");
    assert_eq!(&text[body..], "body");
}

#[test]
fn value_splits_at_first_colon() {
    let text = "---\nurl: http://x\n---\n";
    let (fm, _) = read_frontmatter(text);
    assert_eq!(fm.get("url").unwrap().as_str(), "http://x");
}

#[test]
fn later_binding_of_a_key_wins() {
    let text = "---\na: 1\na: 2\n---\n";
    let (fm, _) = read_frontmatter(text);
    assert_eq!(fm.get("a").unwrap().as_str(), "2");
}

#[test]
fn header_without_closing_line_runs_to_end_of_file() {
    let text = "---\na: 1\nb: 2";
    let (fm, body) = read_frontmatter(text);
    assert_eq!(fm.get("a").unwrap().as_str(), "1");
    assert_eq!(fm.get("b").unwrap().as_str(), "2");
    assert_eq!(body, text.chars().count());
}

#[test]
fn any_dash_line_closes_the_header() {
    let text = "---\na: 1\n- end\nbody here";
    let (fm, body) = read_frontmatter(text);
    assert_eq!(fm.get("a").unwrap().as_str(), "1");
    assert_eq!(&text[body..], "body here");
}

#[test]
fn frontmatter_insert_shadows_and_get_reads_back() {
    let mut fm = Frontmatter::new();
    fm.insert("k".to_string(), "v1".to_string());
    fm.insert("other".to_string(), "x".to_string());
    fm.insert("k".to_string(), "v2".to_string());
    assert_eq!(fm.get("k").unwrap().as_str(), "v2");
    assert_eq!(fm.get("other").unwrap().as_str(), "x");
    assert!(fm.get("absent").is_none());
}
