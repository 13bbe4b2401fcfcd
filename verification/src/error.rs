//! Why a content file cannot become a page.

use vstd::prelude::*;

verus! {

/// The reasons for which the build of a site stops. Each of them is final:
/// one file that fails stops the whole run.
#[derive(Clone, Copy, Debug, PartialEq, Eq, Structural)]
pub enum BuildError {
    /// The path of the content file does not start with the content root.
    MissingContentPrefix,
    /// The path of the content file does not end with the markup extension.
    MissingMarkdownSuffix,
    /// The file has no header block, or the block is not a document of keys
    /// and values of the kinds that a header holds.
    MalformedHeader,
    /// The header gives no title.
    MissingTitle,
    /// The header gives a date that is not a timestamp.
    MalformedDate,
}

} // verus!
