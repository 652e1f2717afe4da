//! A section: the Markdown documents of one directory, loaded strictly and
//! listed newest first.

use crate::model::{opt_text, Page, PageView};
use crate::page::{load_read, load_read_spec};
use crate::text::{
    is_markdown, is_markdown_name, lemma_lex_lt_asymmetric, lemma_lex_lt_negative_transitive,
    lex_lt, str_lt,
};
use vstd::prelude::*;
use vstd::string::*;

verus! {

/// A directory entry as it was enumerated: its file name, and its text where
/// it could be read.
#[derive(Clone, Debug)]
pub struct SourceFile {
    pub name: String,
    pub text: Option<String>,
}

/// What loading a section gives: the pages, in the order in which their files
/// were enumerated, and the names of the Markdown files that were skipped.
#[derive(Debug)]
pub struct SectionLoad {
    pub pages: Vec<Page>,
    pub skipped: Vec<String>,
}

/// The path of a section's document, relative to the content root.
pub open spec fn document_path(section: Seq<char>, name: Seq<char>) -> Seq<char> {
    section + seq!['/'] + name
}

/// The page that a directory entry contributes, if any: the entry must be a
/// Markdown file that loads in strict mode.
pub open spec fn file_page(section: Seq<char>, file: SourceFile) -> Option<PageView> {
    if is_markdown_name(file.name@) {
        match load_read_spec(opt_text(file.text), document_path(section, file.name@), true) {
            Ok(page) => Some(page),
            Err(_) => None,
        }
    } else {
        None
    }
}

/// Whether a directory entry is a Markdown file that does not load.
pub open spec fn file_skipped(section: Seq<char>, file: SourceFile) -> bool {
    is_markdown_name(file.name@) && file_page(section, file) is None
}

/// The pages of a section, in enumeration order.
pub open spec fn section_pages(section: Seq<char>, files: Seq<SourceFile>) -> Seq<PageView>
    decreases files.len(),
{
    if files.len() == 0 {
        Seq::empty()
    } else {
        let before = section_pages(section, files.drop_last());
        match file_page(section, files.last()) {
            Some(page) => before.push(page),
            None => before,
        }
    }
}

/// The names of the skipped files of a section, in enumeration order.
pub open spec fn section_skipped(section: Seq<char>, files: Seq<SourceFile>) -> Seq<Seq<char>>
    decreases files.len(),
{
    if files.len() == 0 {
        Seq::empty()
    } else {
        let before = section_skipped(section, files.drop_last());
        if file_skipped(section, files.last()) {
            before.push(files.last().name@)
        } else {
            before
        }
    }
}

/// The pages of a list as plain text.
pub open spec fn page_views(pages: Seq<Page>) -> Seq<PageView> {
    pages.map_values(|p: Page| p@)
}

/// The strings of a list as plain text.
pub open spec fn text_views(names: Seq<String>) -> Seq<Seq<char>> {
    names.map_values(|s: String| s@)
}

/// Joins a section's directory and a file name with `/`.
pub fn section_document_path(section: &str, name: &str) -> (r: String)
    ensures
        r@ == document_path(section@, name@),
{
    proof {
        reveal_strlit("/");
        assert("/"@ =~= seq!['/']);
    }
    String::from_str(section).concat("/").concat(name)
}

/// Loads the documents of a section. Files that are not Markdown are passed
/// over; a Markdown file that cannot be read, or that strict loading refuses,
/// is skipped and named, and the others are kept.
pub fn load_section(section: &str, files: &Vec<SourceFile>) -> (r: SectionLoad)
    ensures
        page_views(r.pages@) == section_pages(section@, files@),
        text_views(r.skipped@) == section_skipped(section@, files@),
{
    let mut pages: Vec<Page> = Vec::new();
    let mut skipped: Vec<String> = Vec::new();
    let n: usize = files.len();
    let mut i: usize = 0;
    assert(files@.subrange(0, 0) =~= Seq::<SourceFile>::empty());
    assert(page_views(pages@) =~= Seq::<PageView>::empty());
    assert(text_views(skipped@) =~= Seq::<Seq<char>>::empty());
    while i < n
        invariant
            n == files@.len(),
            i <= n,
            page_views(pages@) == section_pages(section@, files@.subrange(0, i as int)),
            text_views(skipped@) == section_skipped(section@, files@.subrange(0, i as int)),
        decreases n - i,
    {
        let file: &SourceFile = &files[i];
        let ghost before_pages = pages@;
        let ghost before_skipped = skipped@;
        proof {
            let next = files@.subrange(0, i + 1);
            assert(next.drop_last() =~= files@.subrange(0, i as int));
            assert(next.last() == *file);
        }
        if is_markdown(file.name.as_str()) {
            let path: String = section_document_path(section, file.name.as_str());
            match load_read(file.text.as_ref(), path.as_str(), true) {
                Ok(page) => {
                    pages.push(page);
                    assert(page_views(pages@) =~= page_views(before_pages).push(page@));
                },
                Err(_) => {
                    skipped.push(file.name.clone());
                    assert(text_views(skipped@) =~= text_views(before_skipped).push(file.name@));
                },
            }
        }
        i += 1;
    }
    assert(files@.subrange(0, n as int) =~= files@);
    SectionLoad { pages, skipped }
}

/// The order of dates: no date comes before any date, and dates go by
/// lexicographic order.
pub open spec fn date_lt(a: Option<Seq<char>>, b: Option<Seq<char>>) -> bool {
    match (a, b) {
        (None, Some(_)) => true,
        (Some(x), Some(y)) => lex_lt(x, y),
        _ => false,
    }
}

/// Whether the page at `i` of `input` is listed before the page at `j`: its
/// date is later, or the dates are equal and it was enumerated first.
pub open spec fn listed_before(input: Seq<Page>, i: int, j: int) -> bool {
    let di = input[i]@.meta.date;
    let dj = input[j]@.meta.date;
    date_lt(dj, di) || (!date_lt(di, dj) && i < j)
}

/// Whether `output` lists the pages of `input` newest first, pages of equal
/// date in their order in `input`; `order[k]` is the place in `input` of the
/// page at `k` of `output`.
pub open spec fn is_listing(input: Seq<Page>, output: Seq<Page>, order: Seq<int>) -> bool {
    &&& order.len() == input.len()
    &&& output.len() == input.len()
    &&& forall|k: int|
        0 <= k < order.len() ==> 0 <= #[trigger] order[k] < input.len() && output[k]
            == input[order[k]]
    &&& forall|a: int, b: int|
        0 <= a < b < order.len() ==> #[trigger] listed_before(input, order[a], order[b])
}

/// Of two dates at most one comes before the other.
pub proof fn lemma_date_lt_asymmetric(a: Option<Seq<char>>, b: Option<Seq<char>>)
    ensures
        !(date_lt(a, b) && date_lt(b, a)),
{
    if a is Some && b is Some {
        lemma_lex_lt_asymmetric(a->0, b->0);
    }
}

/// "Not before" is transitive on dates.
pub proof fn lemma_date_lt_negative_transitive(
    a: Option<Seq<char>>,
    b: Option<Seq<char>>,
    c: Option<Seq<char>>,
)
    requires
        !date_lt(a, b),
        !date_lt(b, c),
    ensures
        !date_lt(a, c),
{
    if a is Some && b is Some && c is Some {
        lemma_lex_lt_negative_transitive(a->0, b->0, c->0);
    }
}

/// Whether one optional date comes strictly before another.
pub fn date_before(a: &Option<String>, b: &Option<String>) -> (r: bool)
    ensures
        r == date_lt(opt_text(*a), opt_text(*b)),
{
    match (a, b) {
        (None, Some(_)) => true,
        (Some(x), Some(y)) => str_lt(x.as_str(), y.as_str()),
        _ => false,
    }
}

/// Sorts the pages of a section for its list: descending by date, pages of
/// equal date in the order given.
pub fn sort_posts(pages: Vec<Page>) -> (r: Vec<Page>)
    ensures
        exists|order: Seq<int>| is_listing(pages@, r@, order),
{
    let ghost input = pages@;
    let mut rest: Vec<Page> = pages;
    let mut out: Vec<Page> = Vec::new();
    let ghost mut order: Seq<int> = Seq::empty();
    while rest.len() > 0
        invariant
            rest@.len() <= input.len(),
            rest@ == input.subrange(0, rest@.len() as int),
            out@.len() == order.len(),
            out@.len() == input.len() - rest@.len(),
            forall|k: int|
                0 <= k < order.len() ==> rest@.len() <= #[trigger] order[k] < input.len() && out@[k]
                    == input[order[k]],
            forall|a: int, b: int|
                0 <= a < b < order.len() ==> #[trigger] listed_before(input, order[a], order[b]),
        decreases rest@.len(),
    {
        let page: Page = rest.pop().unwrap();
        let ghost ix: int = rest@.len() as int;
        assert(page == input[ix]);
        let mut pos: usize = 0;
        while pos < out.len() && date_before(&page.meta.date, &out[pos].meta.date)
            invariant
                pos <= out@.len(),
                forall|a: int|
                    0 <= a < pos ==> date_lt(page@.meta.date, (#[trigger] out@[a])@.meta.date),
            decreases out@.len() - pos,
        {
            pos += 1;
        }
        let ghost old_out = out@;
        let ghost old_order = order;
        out.insert(pos, page);
        proof {
            order = old_order.insert(pos as int, ix);
            let dx = page@.meta.date;
            assert forall|b: int| pos <= b < old_out.len() implies !date_lt(
                dx,
                input[old_order[b]]@.meta.date,
            ) by {
                let dp = input[old_order[pos as int]]@.meta.date;
                let db = input[old_order[b]]@.meta.date;
                assert(old_out[pos as int] == input[old_order[pos as int]]);
                assert(!date_lt(dx, dp));
                if b > pos {
                    assert(listed_before(input, old_order[pos as int], old_order[b]));
                    lemma_date_lt_asymmetric(db, dp);
                    lemma_date_lt_negative_transitive(dx, dp, db);
                }
            }
            assert forall|a: int, b: int| 0 <= a < b < order.len() implies #[trigger] listed_before(
                input,
                order[a],
                order[b],
            ) by {
                if b < pos {
                    assert(listed_before(input, old_order[a], old_order[b]));
                } else if b == pos {
                    assert(old_out[a] == input[old_order[a]]);
                    assert(date_lt(page@.meta.date, old_out[a]@.meta.date));
                } else if a < pos {
                    assert(listed_before(input, old_order[a], old_order[b - 1]));
                } else if a == pos {
                    assert(!date_lt(dx, input[old_order[b - 1]]@.meta.date));
                    assert(ix < old_order[b - 1]);
                } else {
                    assert(listed_before(input, old_order[a - 1], old_order[b - 1]));
                }
            }
            assert(rest@ =~= input.subrange(0, rest@.len() as int));
        }
    }
    assert(is_listing(input, out@, order));
    out
}

/// In a listing no page comes before a page of a later date, every page of
/// the input is listed once, and pages of equal date keep their order.
pub proof fn lemma_listing_is_sorted(input: Seq<Page>, output: Seq<Page>, order: Seq<int>)
    requires
        is_listing(input, output, order),
    ensures
        forall|a: int, b: int|
            0 <= a < b < output.len() ==> !date_lt(
                (#[trigger] output[a])@.meta.date,
                (#[trigger] output[b])@.meta.date,
            ),
        forall|a: int, b: int|
            0 <= a < b < order.len() ==> #[trigger] order[a] != #[trigger] order[b],
        forall|a: int, b: int|
            0 <= a < b < order.len() && !date_lt(output[b]@.meta.date, output[a]@.meta.date)
                ==> #[trigger] order[a] < #[trigger] order[b],
{
    assert forall|a: int, b: int| 0 <= a < b < output.len() implies !date_lt(
        (#[trigger] output[a])@.meta.date,
        (#[trigger] output[b])@.meta.date,
    ) && order[a] != order[b] && (!date_lt(output[b]@.meta.date, output[a]@.meta.date)
        ==> order[a] < order[b]) by {
        assert(listed_before(input, order[a], order[b]));
        lemma_date_lt_asymmetric(output[a]@.meta.date, output[b]@.meta.date);
    }
}

/// Every place of the input occurs in the order of a listing.
pub proof fn lemma_listing_covers(input: Seq<Page>, output: Seq<Page>, order: Seq<int>, x: int)
    requires
        is_listing(input, output, order),
        0 <= x < input.len(),
    ensures
        exists|j: int| 0 <= j < order.len() && order[j] == x,
{
    lemma_listing_is_sorted(input, output, order);
    assert(order.no_duplicates());
    order.unique_seq_to_set();
    let range = vstd::set_lib::set_int_range(0, input.len() as int);
    vstd::set_lib::lemma_int_range(0, input.len() as int);
    assert(order.to_set().subset_of(range)) by {
        assert forall|v: int| order.to_set().contains(v) implies range.contains(v) by {
            let j = choose|j: int| 0 <= j < order.len() && order[j] == v;
            assert(0 <= order[j] < input.len());
        }
    }
    vstd::set_lib::lemma_len_subset(order.to_set(), range);
    vstd::set_lib::lemma_subset_equality(order.to_set(), range);
    assert(range.contains(x));
    assert(order.contains(x));
}

/// Two listings of the same pages agree up to any place.
proof fn lemma_listings_agree_to(
    input: Seq<Page>,
    out1: Seq<Page>,
    order1: Seq<int>,
    out2: Seq<Page>,
    order2: Seq<int>,
    k: int,
)
    requires
        is_listing(input, out1, order1),
        is_listing(input, out2, order2),
        0 <= k <= input.len(),
    ensures
        forall|j: int| 0 <= j < k ==> order1[j] == order2[j],
    decreases k,
{
    if k > 0 {
        lemma_listings_agree_to(input, out1, order1, out2, order2, k - 1);
        let x = order1[k - 1];
        let y = order2[k - 1];
        if x != y {
            lemma_listing_is_sorted(input, out1, order1);
            lemma_listing_is_sorted(input, out2, order2);
            lemma_listing_covers(input, out2, order2, x);
            lemma_listing_covers(input, out1, order1, y);
            let j = choose|j: int| 0 <= j < order2.len() && order2[j] == x;
            let i = choose|i: int| 0 <= i < order1.len() && order1[i] == y;
            if j < k - 1 {
                assert(order1[j] == order2[j]);
                assert(order1[j] != order1[k - 1]);
            }
            if i < k - 1 {
                assert(order1[i] == order2[i]);
                assert(order2[i] != order2[k - 1]);
            }
            assert(listed_before(input, order2[k - 1], order2[j]));
            assert(listed_before(input, order1[k - 1], order1[i]));
            lemma_date_lt_asymmetric(input[x]@.meta.date, input[y]@.meta.date);
        }
    }
}

/// The pages and their dates fix the listing: two listings of the same pages
/// are the same list.
pub proof fn lemma_listing_is_unique(
    input: Seq<Page>,
    out1: Seq<Page>,
    order1: Seq<int>,
    out2: Seq<Page>,
    order2: Seq<int>,
)
    requires
        is_listing(input, out1, order1),
        is_listing(input, out2, order2),
    ensures
        order1 == order2,
        out1 == out2,
{
    lemma_listings_agree_to(input, out1, order1, out2, order2, input.len() as int);
    assert(order1 =~= order2);
    assert forall|k: int| 0 <= k < out1.len() implies out1[k] == out2[k] by {
        assert(out1[k] == input[order1[k]]);
        assert(out2[k] == input[order2[k]]);
    }
    assert(out1 =~= out2);
}

/// The files that a section writes, relative to the output root: one for each
/// listed page, in list order, then the list itself.
pub open spec fn section_outputs_of(section: Seq<char>, posts: Seq<Page>) -> Seq<Seq<char>> {
    Seq::new(
        posts.len() + 1,
        |i: int|
            if i < posts.len() {
                document_path(section, posts[i].url@)
            } else {
                document_path(section, "index.html"@)
            },
    )
}

/// Names the files that a section writes. Two pages with one URL name one
/// file; the later one in the list is written last.
pub fn section_outputs(section: &str, posts: &Vec<Page>) -> (r: Vec<String>)
    ensures
        text_views(r@) == section_outputs_of(section@, posts@),
{
    let mut out: Vec<String> = Vec::new();
    let n: usize = posts.len();
    let mut i: usize = 0;
    while i < n
        invariant
            n == posts@.len(),
            i <= n,
            out@.len() == i,
            forall|k: int|
                0 <= k < i ==> (#[trigger] out@[k])@ == document_path(section@, posts@[k].url@),
        decreases n - i,
    {
        out.push(section_document_path(section, posts[i].url.as_str()));
        i += 1;
    }
    out.push(section_document_path(section, "index.html"));
    assert(text_views(out@) =~= section_outputs_of(section@, posts@));
    out
}

/// Whether `output` lists the section's pages: `loaded` are the pages that
/// load, in enumeration order, and `output` lists them by `order`.
pub open spec fn is_section_listing(
    section: Seq<char>,
    files: Seq<SourceFile>,
    output: Seq<Page>,
    loaded: Seq<Page>,
    order: Seq<int>,
) -> bool {
    page_views(loaded) == section_pages(section, files) && is_listing(loaded, output, order)
}

/// Loads a section and orders its pages for the list: the pages that load,
/// newest first, pages of equal date as they were enumerated.
pub fn list_section(section: &str, files: &Vec<SourceFile>) -> (r: SectionLoad)
    ensures
        exists|loaded: Seq<Page>, order: Seq<int>|
            is_section_listing(section@, files@, r.pages@, loaded, order),
        text_views(r.skipped@) == section_skipped(section@, files@),
{
    let loaded: SectionLoad = load_section(section, files);
    let ghost before = loaded.pages@;
    let posts: Vec<Page> = sort_posts(loaded.pages);
    let ghost order = choose|order: Seq<int>| is_listing(before, posts@, order);
    let r = SectionLoad { pages: posts, skipped: loaded.skipped };
    assert(is_section_listing(section@, files@, r.pages@, before, order));
    r
}

} // verus!
