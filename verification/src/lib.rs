//! The build rules of a small static site generator: how a Markdown document
//! with optional frontmatter becomes a page, how the documents of a section are
//! gathered and ordered, how the navigation is turned into build steps, and how
//! the watch loop reacts to events.

pub mod model;
pub mod page;
pub mod section;
pub mod site;
pub mod text;
pub mod watch;
