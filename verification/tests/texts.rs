use mdbear::text::{file_name, has_separator, is_markdown, last_index, slug, str_eq, str_lt};

#[test]
fn slug_strips_directory_and_extension() {
    assert_eq!(slug("index.md"), "index");
    assert_eq!(slug("blog/a.md"), "a");
    assert_eq!(slug("a/b/c.tar.gz"), "c.tar");
    assert_eq!(slug("README"), "README");
    assert_eq!(slug(".hidden"), ".hidden");
    assert_eq!(slug("blog/.hidden.md"), ".hidden");
    assert_eq!(slug("caf\u{e9}/\u{fc}ber.md"), "\u{fc}ber");
}

#[test]
fn file_name_is_the_last_component() {
    assert_eq!(file_name("blog/a.md"), "a.md");
    assert_eq!(file_name("a.md"), "a.md");
    assert_eq!(file_name("x/y/"), "");
}

#[test]
fn markdown_files_end_in_md() {
    assert!(is_markdown("a.md"));
    assert!(is_markdown("a.b.md"));
    assert!(!is_markdown("a.MD"));
    assert!(!is_markdown("a.mdx"));
    assert!(!is_markdown("a.m"));
    assert!(!is_markdown("md"));
    assert!(!is_markdown(".md"));
    assert!(!is_markdown("a.txt"));
    assert!(!is_markdown(""));
}

#[test]
fn last_index_finds_the_last_occurrence() {
    assert_eq!(last_index("a/b/c", '/'), Some(3));
    assert_eq!(last_index("abc", '/'), None);
    assert_eq!(last_index("", '/'), None);
    assert_eq!(last_index("\u{e9}/x", '/'), Some(1));
}

#[test]
fn separator_is_detected() {
    assert!(has_separator("blog/index.md"));
    assert!(!has_separator("index.md"));
}

#[test]
fn text_equality_and_order() {
    assert!(str_eq("page", "page"));
    assert!(!str_eq("page", "pages"));
    assert!(!str_eq("page", "pagf"));
    assert!(str_lt("2024-01-01", "2024-02-01"));
    assert!(!str_lt("2024-02-01", "2024-01-01"));
    assert!(!str_lt("same", "same"));
    assert!(str_lt("", "a"));
    assert!(!str_lt("a", ""));
    assert!(str_lt("ab", "abc"));
    assert!(str_lt("Z", "a"));
    assert!(str_lt("z", "\u{e9}"));
}

#[test]
fn text_order_agrees_with_the_standard_order() {
    let samples = ["", "a", "ab", "b", "2024-01-01", "2024-1-1", "\u{e9}", "z\u{10348}", "z\u{ffff}"];
    for x in samples {
        for y in samples {
            assert_eq!(str_lt(x, y), x < y);
            assert_eq!(str_eq(x, y), x == y);
        }
    }
}
