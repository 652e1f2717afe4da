//! The site's data: configuration, navigation entries, page metadata, pages.

use vstd::prelude::*;

verus! {

/// What a navigation entry stands for.
#[derive(Clone, Copy, Debug, PartialEq, Eq, Structural)]
pub enum NavKind {
    /// A single document.
    Page,
    /// A directory of documents with a list page.
    Section,
    /// A link in the menu; nothing is generated for it.
    Link,
    /// Any other tag; ignored with a warning.
    Unknown,
}

/// One navigation entry, in the words of the configuration file.
#[derive(Clone, Debug)]
pub struct NavItem {
    pub name: String,
    pub path: String,
    pub item_type: String,
}

/// Site-wide settings and the navigation, in menu order.
#[derive(Clone, Debug)]
pub struct Config {
    pub site_icon: String,
    pub site_name: String,
    pub author: String,
    pub output_dir: String,
    pub nav: Vec<NavItem>,
}

/// Metadata from a document's frontmatter.
#[derive(Clone, Debug)]
pub struct PostMeta {
    pub title: Option<String>,
    pub date: Option<String>,
}

/// A loaded and rendered document.
#[derive(Clone, Debug)]
pub struct Page {
    pub meta: PostMeta,
    pub content_html: String,
    pub slug: String,
    pub url: String,
}

/// The characters of an optional string.
pub open spec fn opt_text(s: Option<String>) -> Option<Seq<char>> {
    match s {
        Some(t) => Some(t@),
        None => None,
    }
}

/// The characters of an optional borrowed string.
pub open spec fn opt_ref_text(s: Option<&String>) -> Option<Seq<char>> {
    match s {
        Some(t) => Some(t@),
        None => None,
    }
}

/// Metadata as plain text.
pub struct PostMetaView {
    pub title: Option<Seq<char>>,
    pub date: Option<Seq<char>>,
}

/// A page as plain text.
pub struct PageView {
    pub meta: PostMetaView,
    pub content_html: Seq<char>,
    pub slug: Seq<char>,
    pub url: Seq<char>,
}

impl View for PostMeta {
    type V = PostMetaView;

    open spec fn view(&self) -> PostMetaView {
        PostMetaView { title: opt_text(self.title), date: opt_text(self.date) }
    }
}

impl View for Page {
    type V = PageView;

    open spec fn view(&self) -> PageView {
        PageView {
            meta: self.meta@,
            content_html: self.content_html@,
            slug: self.slug@,
            url: self.url@,
        }
    }
}

/// Metadata with neither title nor date.
pub open spec fn empty_meta() -> PostMetaView {
    PostMetaView { title: None, date: None }
}

impl Default for PostMeta {
    fn default() -> (r: PostMeta)
        ensures
            r@ == empty_meta(),
    {
        PostMeta { title: None, date: None }
    }
}

} // verus!
