//! Where a page is written: the output path that belongs to a content file,
//! and the kind of page that a path makes.

use vstd::prelude::*;
use vstd::string::*;
use crate::error::BuildError;
use crate::page::{Page, PageView};
use crate::text::{strip_prefix, strip_suffix};

verus! {

/// The output path that belongs to the content file at `source`: the content
/// root `content` in front replaced by the output root `public`, and the
/// extension `.md` at the end replaced by `.html`. Every directory in between
/// is kept. A path outside the content root is refused, and so is one that
/// does not end in `.md`.
pub open spec fn html_file_path(source: Seq<char>) -> Result<Seq<char>, BuildError> {
    if !"content"@.is_prefix_of(source) {
        Err(BuildError::MissingContentPrefix)
    } else {
        let inner = source.skip("content"@.len() as int);
        if !".md"@.is_suffix_of(inner) {
            Err(BuildError::MissingMarkdownSuffix)
        } else {
            Ok("public"@ + inner.take(inner.len() - ".md"@.len()) + ".html"@)
        }
    }
}

/// The output path that belongs to a content file, or the reason for which
/// the file has none.
pub fn get_html_file_path(markdown_file_path: &str) -> (path: Result<String, BuildError>)
    ensures
        path matches Ok(p) ==> html_file_path(markdown_file_path@) == Ok::<_, BuildError>(p@),
        path matches Err(e) ==> html_file_path(markdown_file_path@) == Err::<Seq<char>, _>(e),
{
    let without_prefix = match strip_prefix(markdown_file_path, "content") {
        Some(rest) => rest,
        None => {
            return Err(BuildError::MissingContentPrefix);
        },
    };
    let stem = match strip_suffix(without_prefix, ".md") {
        Some(stem) => stem,
        None => {
            return Err(BuildError::MissingMarkdownSuffix);
        },
    };
    let mut html_file_path = "public".to_owned();
    html_file_path.append(stem);
    html_file_path.append(".html");
    Ok(html_file_path)
}

/// The kinds of page: a post lies under the posts directory of the output
/// tree, any other page is a plain page.
#[derive(Clone, Copy, Debug, PartialEq, Eq, Hash, Structural)]
pub enum PageType {
    POST,
    PAGE,
}

/// `path` names the posts directory `public/posts` or something below it.
pub open spec fn is_post_path(path: Seq<char>) -> bool {
    path == "public/posts"@ || "public/posts/"@.is_prefix_of(path)
}

pub open spec fn page_type_of(page: PageView) -> PageType {
    if is_post_path(page.html_file_path) {
        PageType::POST
    } else {
        PageType::PAGE
    }
}

/// The kind of a page, by the place of its output file.
pub fn page_type(page: &Page) -> (kind: PageType)
    ensures
        kind == page_type_of(page@),
{
    let path = page.html_file_path.as_str();
    let directory = "public/posts".to_owned();
    if page.html_file_path == directory || strip_prefix(path, "public/posts/").is_some() {
        PageType::POST
    } else {
        PageType::PAGE
    }
}

} // verus!
