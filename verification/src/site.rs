//! From the navigation to the steps of a build.

use crate::model::{opt_ref_text, Config, NavItem, NavKind, Page, PageView};
use crate::page::{load_read, load_read_spec, LoadError};
use crate::text::str_eq;
use vstd::prelude::*;
use vstd::string::*;

verus! {

/// One step of a build, made from one navigation entry.
#[derive(Clone, Debug)]
pub enum BuildStep {
    /// Load the document at `path` leniently, render it with the page
    /// template and write it to the output root.
    RenderPage { path: String },
    /// Build the section in the directory `path`: its pages and its list,
    /// which is headed `title`.
    BuildSection { title: String, path: String },
    /// A menu link: nothing to generate.
    Nothing,
    /// An entry of a kind that is not known: warn and go on.
    Warn { tag: String },
}

/// The kind that a tag of the configuration file names.
pub open spec fn kind_of(tag: Seq<char>) -> NavKind {
    if tag == "page"@ {
        NavKind::Page
    } else if tag == "section"@ {
        NavKind::Section
    } else if tag == "link"@ {
        NavKind::Link
    } else {
        NavKind::Unknown
    }
}

/// The step that a navigation entry asks for.
pub open spec fn step_of(item: NavItem) -> BuildStep {
    match kind_of(item.item_type@) {
        NavKind::Page => BuildStep::RenderPage { path: item.path },
        NavKind::Section => BuildStep::BuildSection { title: item.name, path: item.path },
        NavKind::Link => BuildStep::Nothing,
        NavKind::Unknown => BuildStep::Warn { tag: item.item_type },
    }
}

/// The prefix that leads from a generated file back to the output root.
pub open spec fn root_marker_of(kind: NavKind) -> Seq<char> {
    match kind {
        NavKind::Section => ".."@,
        _ => "."@,
    }
}

impl NavItem {
    /// The kind of this entry.
    pub fn kind(&self) -> (r: NavKind)
        ensures
            r == kind_of(self.item_type@),
    {
        let tag: &str = self.item_type.as_str();
        if str_eq(tag, "page") {
            NavKind::Page
        } else if str_eq(tag, "section") {
            NavKind::Section
        } else if str_eq(tag, "link") {
            NavKind::Link
        } else {
            NavKind::Unknown
        }
    }

    /// The build step for this entry.
    pub fn step(&self) -> (r: BuildStep)
        ensures
            r == step_of(*self),
    {
        match self.kind() {
            NavKind::Page => BuildStep::RenderPage { path: self.path.clone() },
            NavKind::Section => BuildStep::BuildSection {
                title: self.name.clone(),
                path: self.path.clone(),
            },
            NavKind::Link => BuildStep::Nothing,
            NavKind::Unknown => BuildStep::Warn { tag: self.item_type.clone() },
        }
    }
}

/// The root marker handed to the templates of an entry's pages: `.` for a
/// page at the output root, `..` for the files of a section.
pub fn root_marker(kind: NavKind) -> (r: &'static str)
    ensures
        r@ == root_marker_of(kind),
{
    match kind {
        NavKind::Section => "..",
        _ => ".",
    }
}

/// The steps of a build: one for each navigation entry, in menu order.
pub fn plan_build(config: &Config) -> (steps: Vec<BuildStep>)
    ensures
        steps@.len() == config.nav@.len(),
        forall|i: int| 0 <= i < steps@.len() ==> steps@[i] == step_of(#[trigger] config.nav@[i]),
{
    let mut steps: Vec<BuildStep> = Vec::new();
    let n: usize = config.nav.len();
    let mut i: usize = 0;
    while i < n
        invariant
            n == config.nav@.len(),
            i <= n,
            steps@.len() == i,
            forall|k: int| 0 <= k < i ==> steps@[k] == step_of(#[trigger] config.nav@[k]),
        decreases n - i,
    {
        steps.push(config.nav[i].step());
        i += 1;
    }
    steps
}

/// Loads the document of a page entry: leniently, so that metadata is
/// optional. `text` is `None` where the file could not be read.
pub fn load_nav_page(text: Option<&String>, path: &str) -> (r: Result<Page, LoadError>)
    ensures
        match r {
            Ok(page) => load_read_spec(opt_ref_text(text), path@, false) == Ok::<
                PageView,
                LoadError,
            >(page@),
            Err(e) => load_read_spec(opt_ref_text(text), path@, false) == Err::<
                PageView,
                LoadError,
            >(e),
        },
{
    load_read(text, path, false)
}

} // verus!
