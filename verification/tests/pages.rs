use mdbear::page::{assemble_page, load_page, load_read, page_url, read_meta};
use mdbear::page::{LoadError, MetaBlock, MetaField};

#[test]
fn plain_document_loads_with_empty_metadata() {
    let page = load_page("# Hello\n", "about.md", false).unwrap();
    assert!(page.meta.title.is_none());
    assert!(page.meta.date.is_none());
    assert_eq!(page.slug, "about");
    assert_eq!(page.url, "about.html");
    assert_eq!(page.content_html, "<h1>Hello</h1>\n");
}

#[test]
fn root_index_is_written_to_index_html() {
    let page = load_page("Welcome", "index.md", false).unwrap();
    assert_eq!(page.slug, "index");
    assert_eq!(page.url, "index.html");
    assert_eq!(page.content_html, "<p>Welcome</p>\n");
}

#[test]
fn section_index_keeps_its_own_index_html() {
    let page = load_page("Welcome", "blog/index.md", false).unwrap();
    assert_eq!(page.slug, "index");
    assert_eq!(page.url, "index.html");
    assert_eq!(page_url("blog/index.md"), "index.html");
    assert_eq!(page_url("blog/first-post.md"), "first-post.html");
}

#[test]
fn frontmatter_is_split_from_the_body() {
    let source = "---\ntitle: \"A\"\ndate: \"2024-01-01\"\n---\nBody *text*";
    let page = load_page(source, "blog/a.md", true).unwrap();
    assert_eq!(page.meta.title.as_deref(), Some("A"));
    assert_eq!(page.meta.date.as_deref(), Some("2024-01-01"));
    assert_eq!(page.slug, "a");
    assert_eq!(page.url, "a.html");
    assert_eq!(page.content_html, "<p>Body <em>text</em></p>\n");
}

#[test]
fn lenient_load_keeps_what_the_frontmatter_gives() {
    let page = load_page("---\ntitle: Only a title\n---\nBody", "notes.md", false).unwrap();
    assert_eq!(page.meta.title.as_deref(), Some("Only a title"));
    assert!(page.meta.date.is_none());
}

#[test]
fn unknown_keys_are_ignored() {
    let source = "---\ntitle: T\ndate: \"2024-03-01\"\ntags: [a, b]\ndraft: true\n---\nx";
    let page = load_page(source, "blog/t.md", true).unwrap();
    assert_eq!(page.meta.title.as_deref(), Some("T"));
    assert_eq!(page.meta.date.as_deref(), Some("2024-03-01"));
}

#[test]
fn strict_title_defaults_to_slug() {
    let page = load_page("---\ndate: \"2024-02-01\"\n---\nPost", "blog/b.md", true).unwrap();
    assert_eq!(page.meta.title.as_deref(), Some("b"));
    assert_eq!(page.meta.date.as_deref(), Some("2024-02-01"));
}

#[test]
fn lenient_title_is_not_defaulted() {
    let page = load_page("---\ndate: \"2024-02-01\"\n---\nPost", "b.md", false).unwrap();
    assert!(page.meta.title.is_none());
}

#[test]
fn strict_without_date_is_refused() {
    let with_title = load_page("---\ntitle: C\n---\nPost", "blog/c.md", true);
    assert_eq!(with_title.unwrap_err(), LoadError::MissingDate);
    let with_other_key = load_page("---\nauthor: me\n---\nPost", "blog/c.md", true);
    assert_eq!(with_other_key.unwrap_err(), LoadError::MissingDate);
    let null_date = load_page("---\ntitle: C\ndate: ~\n---\nPost", "blog/c.md", true);
    assert_eq!(null_date.unwrap_err(), LoadError::MissingDate);
}

#[test]
fn strict_without_frontmatter_is_refused() {
    let r = load_page("Just a body", "blog/c.md", true);
    assert_eq!(r.unwrap_err(), LoadError::MissingFrontmatter);
    let empty_block = load_page("---\n---\nJust a body", "blog/c.md", true);
    assert_eq!(empty_block.unwrap_err(), LoadError::MissingFrontmatter);
}

#[test]
fn malformed_metadata_is_a_parse_error() {
    let r = load_page("---\ntitle: [unclosed\n---\nBody", "a.md", false);
    assert_eq!(r.unwrap_err(), LoadError::MetadataParse);
}

#[test]
fn wrongly_typed_field_empties_the_metadata() {
    let source = "---\ntitle: 5\ndate: \"2024-01-01\"\n---\nBody";
    let lenient = load_page(source, "a.md", false).unwrap();
    assert!(lenient.meta.title.is_none());
    assert!(lenient.meta.date.is_none());
    let strict = load_page(source, "blog/a.md", true);
    assert_eq!(strict.unwrap_err(), LoadError::MissingDate);
}

#[test]
fn metadata_that_is_no_mapping_is_empty() {
    let source = "---\n- one\n- two\n---\nBody";
    let lenient = load_page(source, "a.md", false).unwrap();
    assert!(lenient.meta.title.is_none());
    assert!(lenient.meta.date.is_none());
    assert_eq!(load_page(source, "a.md", true).unwrap_err(), LoadError::MissingDate);
}

#[test]
fn unread_document_is_an_io_error() {
    assert_eq!(load_read(None, "a.md", false).unwrap_err(), LoadError::Io);
    let text = String::from("Body");
    let page = load_read(Some(&text), "a.md", false).unwrap();
    assert_eq!(page.content_html, "<p>Body</p>\n");
}

#[test]
fn markdown_constructs_are_rendered() {
    let source = "## Head\n\n- one\n- two\n\n[link](https://example.org) ![img](a.png)\n\n```\ncode\n```\n";
    let page = load_page(source, "doc.md", false).unwrap();
    let expected = "<h2>Head</h2>\n<ul>\n<li>one</li>\n<li>two</li>\n</ul>\n<p><a href=\"https://example.org\">link</a> <img src=\"a.png\" alt=\"img\" /></p>\n<pre><code>code\n</code></pre>\n";
    assert_eq!(page.content_html, expected);
}

#[test]
fn rendering_is_repeatable() {
    let source = "---\ntitle: A\ndate: \"2024-01-01\"\n---\n# Same\n\ntext";
    let one = load_page(source, "blog/a.md", true).unwrap();
    let two = load_page(source, "blog/a.md", true).unwrap();
    assert_eq!(one.content_html, two.content_html);
    assert_eq!(one.meta.title, two.meta.title);
    assert_eq!(one.meta.date, two.meta.date);
    assert_eq!(one.url, two.url);
}

#[test]
fn assemble_page_follows_the_block() {
    let block = MetaBlock { title: MetaField::Absent, date: MetaField::Text(String::from("2024-05-05")) };
    let page = assemble_page(Some(block), String::from("<p>x</p>"), "blog/post.one.md", true).unwrap();
    assert_eq!(page.meta.title.as_deref(), Some("post.one"));
    assert_eq!(page.meta.date.as_deref(), Some("2024-05-05"));
    assert_eq!(page.slug, "post.one");
    assert_eq!(page.url, "post.one.html");
    assert_eq!(page.content_html, "<p>x</p>");

    let no_date = MetaBlock { title: MetaField::Text(String::from("T")), date: MetaField::Null };
    assert_eq!(assemble_page(Some(no_date), String::new(), "blog/p.md", true).unwrap_err(), LoadError::MissingDate);
    assert_eq!(assemble_page(None, String::new(), "blog/p.md", true).unwrap_err(), LoadError::MissingFrontmatter);
    let plain = assemble_page(None, String::from("h"), "p.md", false).unwrap();
    assert!(plain.meta.title.is_none() && plain.meta.date.is_none());
}

#[test]
fn read_meta_is_lenient() {
    let good = read_meta(Some(MetaBlock { title: MetaField::Text(String::from("T")), date: MetaField::Absent }));
    assert_eq!(good.title.as_deref(), Some("T"));
    assert!(good.date.is_none());
    let bad = read_meta(Some(MetaBlock { title: MetaField::Text(String::from("T")), date: MetaField::Other }));
    assert!(bad.title.is_none() && bad.date.is_none());
    let not_map = read_meta(Some(MetaBlock { title: MetaField::NotMapping, date: MetaField::NotMapping }));
    assert!(not_map.title.is_none() && not_map.date.is_none());
    let none = read_meta(None);
    assert!(none.title.is_none() && none.date.is_none());
}
