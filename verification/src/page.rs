//! Loading one document: frontmatter, validation, slug, URL, rendered body.

use crate::model::{empty_meta, opt_ref_text, Page, PageView, PostMeta, PostMetaView};
use crate::text::{has_separator, slug, slug_of, str_eq};
use vstd::prelude::*;
use vstd::string::*;

verus! {

/// `gray_matter::Pod`, the parsed data of a metadata block; opaque here.
#[verifier::external_type_specification]
#[verifier::external_body]
pub struct ExPod(gray_matter::Pod);

/// `gray_matter::Error`, the frontmatter parser's error; opaque here.
#[verifier::external_type_specification]
#[verifier::external_body]
pub struct ExMatterError(gray_matter::Error);

/// What a metadata block holds under one key.
#[derive(Debug)]
pub enum MetaField {
    /// The block is not a key-value mapping.
    NotMapping,
    /// The mapping has no such key.
    Absent,
    /// The key is there with a null value.
    Null,
    /// The key holds a string.
    Text(String),
    /// The key holds a value of another type.
    Other,
}

/// The two keys of a metadata block that a page reads.
#[derive(Debug)]
pub struct MetaBlock {
    pub title: MetaField,
    pub date: MetaField,
}

/// Why a document could not be loaded.
#[derive(Clone, Copy, Debug, PartialEq, Eq, Structural)]
pub enum LoadError {
    /// The document could not be read.
    Io,
    /// The metadata block is malformed.
    MetadataParse,
    /// Strict mode, and the document has no metadata block.
    MissingFrontmatter,
    /// Strict mode, and the metadata holds no date.
    MissingDate,
}

/// What the frontmatter parser makes of a document: `None` where it rejects
/// the metadata block, else the block's data, if any, and the body.
pub uninterp spec fn matter_split(source: Seq<char>) -> Option<(Option<gray_matter::Pod>, Seq<char>)>;

/// What parsed metadata holds under a key.
pub uninterp spec fn pod_entry(pod: gray_matter::Pod, key: Seq<char>) -> MetaField;

/// The HTML fragment that the Markdown renderer gives for a body.
pub uninterp spec fn markdown_html(body: Seq<char>) -> Seq<char>;

/// Calls `gray_matter::Matter::<YAML>::parse` with the default `---`
/// delimiter. Trusted: the outcome depends on the text alone, so it is
/// `matter_split` of it; an error of the parser is handed on as it is.
#[verifier::external_body]
fn split_frontmatter(source: &str) -> (r: Result<
    (Option<gray_matter::Pod>, String),
    gray_matter::Error,
>)
    ensures
        match r {
            Ok(doc) => matter_split(source@) == Some((doc.0, doc.1@)),
            Err(_) => matter_split(source@) is None,
        },
{
    let matter = gray_matter::Matter::<gray_matter::engine::YAML>::new();
    let parsed = matter.parse::<gray_matter::Pod>(source)?;
    Ok((parsed.data, parsed.content))
}

/// Looks a key up in a `gray_matter::Pod` by telling its variants apart and
/// calling `HashMap::get` on the `Hash` variant. Trusted: the answer is
/// `pod_entry` of the value and the key.
#[verifier::external_body]
fn pod_field(pod: &gray_matter::Pod, key: &str) -> (r: MetaField)
    ensures
        r == pod_entry(*pod, key@),
{
    match pod {
        gray_matter::Pod::Hash(entries) => match entries.get(key) {
            None => MetaField::Absent,
            Some(gray_matter::Pod::Null) => MetaField::Null,
            Some(gray_matter::Pod::String(s)) => MetaField::Text(s.clone()),
            Some(_) => MetaField::Other,
        },
        _ => MetaField::NotMapping,
    }
}

/// Calls `pulldown_cmark::Parser::new` and `pulldown_cmark::html::push_html`
/// on an empty buffer. Trusted: the fragment depends on the body alone, so it
/// is `markdown_html` of it.
#[verifier::external_body]
fn render_markdown(body: &str) -> (html: String)
    ensures
        html@ == markdown_html(body@),
{
    let mut out = String::new();
    pulldown_cmark::html::push_html(&mut out, pulldown_cmark::Parser::new(body));
    out
}

/// The text under a key, where it holds one.
pub open spec fn field_text(f: MetaField) -> Option<Seq<char>> {
    match f {
        MetaField::Text(s) => Some(s@),
        _ => None,
    }
}

/// Whether a key's value reads as an optional string.
pub open spec fn field_reads(f: MetaField) -> bool {
    f is Absent || f is Null || f is Text
}

/// The metadata that a block gives. A block with a value that does not read
/// as an optional string gives empty metadata.
pub open spec fn meta_of(block: Option<MetaBlock>) -> PostMetaView {
    match block {
        Some(b) => if field_reads(b.title) && field_reads(b.date) {
            PostMetaView { title: field_text(b.title), date: field_text(b.date) }
        } else {
            empty_meta()
        },
        None => empty_meta(),
    }
}

/// The file that a document is written to, relative to its directory.
pub open spec fn url_of(path: Seq<char>) -> Seq<char> {
    if slug_of(path) == "index"@ && !path.contains('/') {
        "index.html"@
    } else {
        slug_of(path) + ".html"@
    }
}

/// The page made from a document's parts, or the reason why there is none.
pub open spec fn page_spec(
    block: Option<MetaBlock>,
    content_html: Seq<char>,
    path: Seq<char>,
    strict: bool,
) -> Result<PageView, LoadError> {
    let meta = meta_of(block);
    if strict && block is None {
        Err(LoadError::MissingFrontmatter)
    } else if strict && meta.date is None {
        Err(LoadError::MissingDate)
    } else {
        Ok(
            PageView {
                meta: PostMetaView {
                    title: if strict && meta.title is None {
                        Some(slug_of(path))
                    } else {
                        meta.title
                    },
                    date: meta.date,
                },
                content_html,
                slug: slug_of(path),
                url: url_of(path),
            },
        )
    }
}

/// The metadata block of parsed data.
pub open spec fn block_of(data: Option<gray_matter::Pod>) -> Option<MetaBlock> {
    match data {
        Some(pod) => Some(
            MetaBlock { title: pod_entry(pod, "title"@), date: pod_entry(pod, "date"@) },
        ),
        None => None,
    }
}

/// The outcome of loading a document from its text.
pub open spec fn load_spec(source: Seq<char>, path: Seq<char>, strict: bool) -> Result<
    PageView,
    LoadError,
> {
    match matter_split(source) {
        Some((data, body)) => page_spec(block_of(data), markdown_html(body), path, strict),
        None => Err(LoadError::MetadataParse),
    }
}

/// The outcome of loading a document that may not have been readable.
pub open spec fn load_read_spec(text: Option<Seq<char>>, path: Seq<char>, strict: bool) -> Result<
    PageView,
    LoadError,
> {
    match text {
        Some(source) => load_spec(source, path, strict),
        None => Err(LoadError::Io),
    }
}

fn field_into_text(f: MetaField) -> (r: Option<String>)
    ensures
        crate::model::opt_text(r) == field_text(f),
{
    match f {
        MetaField::Text(s) => Some(s),
        _ => None,
    }
}

fn field_is_read(f: &MetaField) -> (r: bool)
    ensures
        r == field_reads(*f),
{
    match f {
        MetaField::Absent => true,
        MetaField::Null => true,
        MetaField::Text(_) => true,
        _ => false,
    }
}

/// Reads the metadata out of a block, leniently.
pub fn read_meta(block: Option<MetaBlock>) -> (r: PostMeta)
    ensures
        r@ == meta_of(block),
{
    match block {
        Some(b) => {
            if field_is_read(&b.title) && field_is_read(&b.date) {
                PostMeta { title: field_into_text(b.title), date: field_into_text(b.date) }
            } else {
                PostMeta::default()
            }
        },
        None => PostMeta::default(),
    }
}

/// The output file name of a document.
pub fn page_url(file_path: &str) -> (r: String)
    ensures
        r@ == url_of(file_path@),
{
    let stem: String = slug(file_path);
    if str_eq(stem.as_str(), "index") && !has_separator(file_path) {
        String::from_str("index.html")
    } else {
        stem.concat(".html")
    }
}

/// Builds the page from the parts of a document: its metadata block, if it
/// has one, and its rendered body.
pub fn assemble_page(
    block: Option<MetaBlock>,
    content_html: String,
    file_path: &str,
    strict_mode: bool,
) -> (r: Result<Page, LoadError>)
    ensures
        match r {
            Ok(page) => page_spec(block, content_html@, file_path@, strict_mode) == Ok::<
                PageView,
                LoadError,
            >(page@),
            Err(e) => page_spec(block, content_html@, file_path@, strict_mode) == Err::<
                PageView,
                LoadError,
            >(e),
        },
{
    if strict_mode && block.is_none() {
        return Err(LoadError::MissingFrontmatter);
    }
    let mut meta: PostMeta = read_meta(block);
    let stem: String = slug(file_path);
    if strict_mode && meta.title.is_none() {
        meta.title = Some(stem.clone());
    }
    if strict_mode && meta.date.is_none() {
        return Err(LoadError::MissingDate);
    }
    let url: String = page_url(file_path);
    Ok(Page { meta, content_html, slug: stem, url })
}

/// Loads a document from its text: splits off the frontmatter, validates
/// the metadata, renders the body and derives slug and URL.
pub fn load_page(source: &str, file_path: &str, strict_mode: bool) -> (r: Result<Page, LoadError>)
    ensures
        match r {
            Ok(page) => load_spec(source@, file_path@, strict_mode) == Ok::<PageView, LoadError>(
                page@,
            ),
            Err(e) => load_spec(source@, file_path@, strict_mode) == Err::<PageView, LoadError>(e),
        },
{
    match split_frontmatter(source) {
        Ok(doc) => {
            let block: Option<MetaBlock> = match &doc.0 {
                Some(pod) => Some(
                    MetaBlock { title: pod_field(pod, "title"), date: pod_field(pod, "date") },
                ),
                None => None,
            };
            let html: String = render_markdown(doc.1.as_str());
            assemble_page(block, html, file_path, strict_mode)
        },
        Err(_) => Err(LoadError::MetadataParse),
    }
}

/// Loads a document whose text is `None` where it could not be read.
pub fn load_read(text: Option<&String>, file_path: &str, strict_mode: bool) -> (r: Result<
    Page,
    LoadError,
>)
    ensures
        match r {
            Ok(page) => load_read_spec(opt_ref_text(text), file_path@, strict_mode) == Ok::<
                PageView,
                LoadError,
            >(page@),
            Err(e) => load_read_spec(opt_ref_text(text), file_path@, strict_mode) == Err::<
                PageView,
                LoadError,
            >(e),
        },
{
    match text {
        Some(source) => load_page(source.as_str(), file_path, strict_mode),
        None => Err(LoadError::Io),
    }
}

/// A page's URL is always its slug followed by `.html`.
pub proof fn lemma_url_is_slug_html(path: Seq<char>)
    ensures
        url_of(path) == slug_of(path) + ".html"@,
{
    reveal_strlit("index");
    reveal_strlit(".html");
    reveal_strlit("index.html");
    if slug_of(path) == "index"@ {
        assert("index"@ + ".html"@ =~= "index.html"@);
    }
}

/// A document without a metadata block, loaded leniently, gives a page with
/// empty metadata whose URL is its slug followed by `.html`.
pub proof fn lemma_plain_document_loads(source: Seq<char>, path: Seq<char>)
    requires
        matter_split(source) matches Some(doc) && doc.0 is None,
    ensures
        load_spec(source, path, false) is Ok,
        load_spec(source, path, false)->Ok_0.meta == empty_meta(),
        load_spec(source, path, false)->Ok_0.url == slug_of(path) + ".html"@,
{
    lemma_url_is_slug_html(path);
}

/// In strict mode a document whose metadata block holds no date string is
/// refused for the missing date, whatever its title.
pub proof fn lemma_strict_needs_date(source: Seq<char>, path: Seq<char>)
    requires
        matter_split(source) matches Some(doc) && doc.0 matches Some(pod) && !(pod_entry(
            pod,
            "date"@,
        ) is Text),
    ensures
        load_spec(source, path, true) == Err::<PageView, LoadError>(LoadError::MissingDate),
{
}

/// In strict mode a document with a date and without a title gets its slug
/// as title, and keeps its date.
pub proof fn lemma_strict_title_defaults_to_slug(source: Seq<char>, path: Seq<char>)
    requires
        matter_split(source) matches Some(doc) && doc.0 matches Some(pod) && pod_entry(
            pod,
            "date"@,
        ) is Text && (pod_entry(pod, "title"@) is Absent || pod_entry(pod, "title"@) is Null),
    ensures
        load_spec(source, path, true) matches Ok(page) && page.meta.title == Some(slug_of(path))
            && page.meta.date is Some && page.slug == slug_of(path),
{
}

/// A page that strict loading gives always has a date and a title.
pub proof fn lemma_strict_page_is_dated(
    block: Option<MetaBlock>,
    html: Seq<char>,
    path: Seq<char>,
)
    ensures
        page_spec(block, html, path, true) matches Ok(page) ==> page.meta.date is Some
            && page.meta.title is Some,
{
}

} // verus!
