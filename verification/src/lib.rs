//! The core of a static site generator.
//!
//! A site is made from a tree of content files, each a YAML header between
//! two fence lines and a Markdown body. A file becomes a page: a descriptor
//! decoded from its header, an output path derived from its own path, and an
//! HTML fragment rendered from its body. The pages are indexed by category,
//! by project and by year, and the documents of the site are composed from
//! them: one for each page, an archive, and the listings of each taxonomy.
//!
//! Nothing here touches the file system. The caller hands over paths and
//! texts and is handed back the files to write.
//!
//! - [`site`] builds pages from content files and files from pages.
//! - [`header`] and [`yaml`] decode headers, [`date`] reads and shows dates.
//! - [`markdown`] renders bodies and finds headers.
//! - [`paths`] derives output paths and tells posts from plain pages.
//! - [`index`] groups pages, and [`sorting`] shows that every list of pages
//!   has its index.
//! - [`theme`] composes the HTML documents, and [`elements`] counts what
//!   they hold, over the occurrences of a text that [`occurrences`] defines.
//! - [`page`], [`error`] and [`text`] hold the records, the failures and the
//!   text helpers that the others share.

pub mod date;
pub mod elements;
pub mod error;
pub mod header;
pub mod index;
pub mod markdown;
pub mod occurrences;
pub mod page;
pub mod paths;
pub mod site;
pub mod sorting;
pub mod text;
pub mod theme;
pub mod yaml;
