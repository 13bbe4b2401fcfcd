//! Markdown to HTML, through `comrak`, and the split of a content file into
//! its header and its rendered body.

use vstd::prelude::*;
use vstd::string::*;
use comrak::nodes::NodeValue;
use comrak::{ComrakExtensionOptions, ComrakOptions, ComrakParseOptions, ComrakRenderOptions};
use crate::error::BuildError;
use crate::header::{front_matter_config, get_parsed_yaml_front_matter, opt_text};
use crate::page::{PageConfig, PageConfigView};

verus! {

/// The longest front-matter delimiter that the renderer is handed. The
/// renderer compiles the delimiter into a search pattern, and refuses to
/// build a pattern beyond a size that a delimiter of this length stays far
/// below.
pub const MAX_DELIMITER_LEN: usize = 1024;

/// How Markdown is read and rendered: the extensions that are switched on,
/// then what steers parsing, then what steers the HTML that is written.
#[derive(Clone, Debug, PartialEq, Eq)]
pub struct RenderOptions {
    pub strikethrough: bool,
    pub tagfilter: bool,
    pub table: bool,
    pub autolink: bool,
    pub tasklist: bool,
    pub superscript: bool,
    pub header_ids: Option<String>,
    pub footnotes: bool,
    pub description_lists: bool,
    pub front_matter_delimiter: Option<String>,
    pub smart: bool,
    pub default_info_string: Option<String>,
    pub hardbreaks: bool,
    pub github_pre_lang: bool,
    pub width: usize,
    pub unsafe_: bool,
    pub escape: bool,
}

pub struct RenderOptionsView {
    pub strikethrough: bool,
    pub tagfilter: bool,
    pub table: bool,
    pub autolink: bool,
    pub tasklist: bool,
    pub superscript: bool,
    pub header_ids: Option<Seq<char>>,
    pub footnotes: bool,
    pub description_lists: bool,
    pub front_matter_delimiter: Option<Seq<char>>,
    pub smart: bool,
    pub default_info_string: Option<Seq<char>>,
    pub hardbreaks: bool,
    pub github_pre_lang: bool,
    pub width: usize,
    pub unsafe_: bool,
    pub escape: bool,
}

impl View for RenderOptions {
    type V = RenderOptionsView;

    open spec fn view(&self) -> RenderOptionsView {
        RenderOptionsView {
            strikethrough: self.strikethrough,
            tagfilter: self.tagfilter,
            table: self.table,
            autolink: self.autolink,
            tasklist: self.tasklist,
            superscript: self.superscript,
            header_ids: opt_text(self.header_ids),
            footnotes: self.footnotes,
            description_lists: self.description_lists,
            front_matter_delimiter: opt_text(self.front_matter_delimiter),
            smart: self.smart,
            default_info_string: opt_text(self.default_info_string),
            hardbreaks: self.hardbreaks,
            github_pre_lang: self.github_pre_lang,
            width: self.width,
            unsafe_: self.unsafe_,
            escape: self.escape,
        }
    }
}

impl RenderOptionsView {
    /// The front-matter delimiter, if one is set, is short enough to be
    /// handed to the renderer.
    pub open spec fn wf(self) -> bool {
        self.front_matter_delimiter matches Some(d) ==> d.len() <= MAX_DELIMITER_LEN
    }
}

impl RenderOptions {
    /// Whether the options can be handed to the renderer.
    pub fn is_valid(&self) -> (valid: bool)
        ensures
            valid == self@.wf(),
    {
        match &self.front_matter_delimiter {
            Some(delimiter) => delimiter.as_str().unicode_len() <= MAX_DELIMITER_LEN,
            None => true,
        }
    }
}

/// The options that the site is built with: tables and footnotes on, the
/// anchors of headings prefixed with `abc`, code blocks without a language
/// taken as `abc`, front matter between `---` lines, raw HTML left out.
pub open spec fn site_options() -> RenderOptionsView {
    RenderOptionsView {
        strikethrough: false,
        tagfilter: false,
        table: true,
        autolink: false,
        tasklist: false,
        superscript: false,
        header_ids: Some("abc"@),
        footnotes: true,
        description_lists: false,
        front_matter_delimiter: Some("---"@),
        smart: false,
        default_info_string: Some("abc"@),
        hardbreaks: false,
        github_pre_lang: false,
        width: 123456,
        unsafe_: false,
        escape: false,
    }
}

/// The options that the site is built with.
pub fn prepare_options() -> (options: RenderOptions)
    ensures
        options@ == site_options(),
        options@.wf(),
{
    proof {
        reveal_strlit("---");
    }
    RenderOptions {
        strikethrough: false,
        tagfilter: false,
        table: true,
        autolink: false,
        tasklist: false,
        superscript: false,
        header_ids: Some("abc".to_owned()),
        footnotes: true,
        description_lists: false,
        front_matter_delimiter: Some("---".to_owned()),
        smart: false,
        default_info_string: Some("abc".to_owned()),
        hardbreaks: false,
        github_pre_lang: false,
        width: 123456,
        unsafe_: false,
        escape: false,
    }
}

/// The HTML that `comrak::markdown_to_html` writes for a text under given
/// options.
pub uninterp spec fn markdown_html(contents: Seq<char>, options: RenderOptionsView) -> Seq<char>;

/// The front-matter block that `comrak::parse_document` splits off the
/// beginning of a text under a given delimiter, fence lines included; `None`
/// where it finds no such block.
pub uninterp spec fn markdown_front_matter(contents: Seq<char>, delimiter: Seq<char>) -> Option<
    Seq<char>,
>;

/// `comrak::markdown_to_html`, with the options copied field by field into
/// comrak's own: the HTML of the whole text, its front-matter block left out.
#[verifier::external_body]
fn render_html(contents: &str, o: &RenderOptions) -> (html: String)
    requires
        o@.wf(),
    ensures
        html@ == markdown_html(contents@, o@),
{
    let extension = ComrakExtensionOptions {
        strikethrough: o.strikethrough, tagfilter: o.tagfilter, table: o.table,
        autolink: o.autolink, tasklist: o.tasklist, superscript: o.superscript,
        header_ids: o.header_ids.clone(), footnotes: o.footnotes,
        description_lists: o.description_lists,
        front_matter_delimiter: o.front_matter_delimiter.clone(),
    };
    let parse = ComrakParseOptions { smart: o.smart, default_info_string: o.default_info_string.clone() };
    let render = ComrakRenderOptions {
        hardbreaks: o.hardbreaks, github_pre_lang: o.github_pre_lang, width: o.width,
        unsafe_: o.unsafe_, escape: o.escape,
    };
    comrak::markdown_to_html(contents, &ComrakOptions { extension, parse, render })
}

/// `comrak::parse_document` under default options but for the front-matter
/// delimiter, asked only for the front-matter node: the parser puts that node,
/// if any, first among the children of the document.
#[verifier::external_body]
fn front_matter(contents: &str, delimiter: &str) -> (block: Option<String>)
    requires
        delimiter@.len() <= MAX_DELIMITER_LEN,
    ensures
        opt_text(block) == markdown_front_matter(contents@, delimiter@),
{
    let mut options = ComrakOptions::default();
    options.extension.front_matter_delimiter = Some(delimiter.to_owned());
    let arena = comrak::Arena::new();
    let root = comrak::parse_document(&arena, contents, &options);
    match root.first_child().map(|node| node.data.borrow().value.clone()) {
        Some(NodeValue::FrontMatter(block)) => Some(String::from_utf8_lossy(&block).into_owned()),
        _ => None,
    }
}

/// What a content file holds: the descriptor that its header declares, and
/// the HTML rendered from its body.
#[derive(Clone, Debug, PartialEq, Eq)]
pub struct MarkdownContent {
    pub original_config: PageConfig,
    pub rendered_html: String,
}

/// What a content file stands for, over the results of the renderer.
///
/// A file without a front-matter block is refused, and so is one whose block
/// does not decode. The HTML is that of the whole text.
pub open spec fn document_content(contents: Seq<char>, options: RenderOptionsView) -> Result<
    (PageConfigView, Seq<char>),
    BuildError,
> {
    match options.front_matter_delimiter {
        None => Err(BuildError::MalformedHeader),
        Some(delimiter) => content_of(
            markdown_front_matter(contents, delimiter),
            markdown_html(contents, options),
        ),
    }
}

/// What a content file stands for, given the front-matter block that was
/// found in it and the HTML that was rendered from it.
pub open spec fn content_of(block: Option<Seq<char>>, html: Seq<char>) -> Result<
    (PageConfigView, Seq<char>),
    BuildError,
> {
    match block {
        None => Err(BuildError::MalformedHeader),
        Some(block) => match front_matter_config(block) {
            Ok(config) => Ok((config, html)),
            Err(e) => Err(e),
        },
    }
}

/// Puts together what was found in a content file: decodes the front-matter
/// block, and keeps the rendered HTML beside the descriptor.
pub fn assemble_content(block: Option<String>, html: String) -> (content: Result<
    MarkdownContent,
    BuildError,
>)
    ensures
        content matches Ok(c) ==> content_of(opt_text(block), html@) == Ok::<_, BuildError>(
            (c.original_config@, c.rendered_html@),
        ) && c.original_config@.wf(),
        content matches Err(e) ==> content_of(opt_text(block), html@) == Err::<
            (PageConfigView, Seq<char>),
            _,
        >(e),
{
    match block {
        None => Err(BuildError::MalformedHeader),
        Some(block) => match get_parsed_yaml_front_matter(block.as_str()) {
            Ok(original_config) => Ok(MarkdownContent { original_config, rendered_html: html }),
            Err(e) => Err(e),
        },
    }
}

/// Renders the text of a content file and decodes its header.
pub fn parse_document_content(contents: &str, options: &RenderOptions) -> (content: Result<
    MarkdownContent,
    BuildError,
>)
    requires
        options@.wf(),
    ensures
        content matches Ok(c) ==> document_content(contents@, options@) == Ok::<_, BuildError>(
            (c.original_config@, c.rendered_html@),
        ) && c.original_config@.wf(),
        content matches Err(e) ==> document_content(contents@, options@) == Err::<
            (PageConfigView, Seq<char>),
            _,
        >(e),
{
    match &options.front_matter_delimiter {
        None => Err(BuildError::MalformedHeader),
        Some(delimiter) => {
            let html = render_html(contents, options);
            let block = front_matter(contents, delimiter.as_str());
            assemble_content(block, html)
        },
    }
}

} // verus!
