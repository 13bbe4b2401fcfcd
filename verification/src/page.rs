//! The records of a site: what a page declares about itself, where it is
//! written, and the site-wide settings that every document shares.

use vstd::prelude::*;
use vstd::string::*;
use crate::date::Timestamp;
use crate::index::Grouping;
use crate::text::{lowercase, lowercased, texts};

verus! {

/// What a page declares in its header.
///
/// `path` is the link under which listings refer to the page, `date` is
/// absent for an undated page, and `categories` and `projects` name each tag
/// once, in the order of declaration.
#[derive(Clone, Debug, PartialEq, Eq)]
pub struct PageConfig {
    pub title: String,
    pub path: String,
    pub date: Option<Timestamp>,
    pub categories: Vec<String>,
    pub projects: Vec<String>,
}

pub struct PageConfigView {
    pub title: Seq<char>,
    pub path: Seq<char>,
    pub date: Option<Timestamp>,
    pub categories: Seq<Seq<char>>,
    pub projects: Seq<Seq<char>>,
}

impl View for PageConfig {
    type V = PageConfigView;

    open spec fn view(&self) -> PageConfigView {
        PageConfigView {
            title: self.title@,
            path: self.path@,
            date: self.date,
            categories: texts(self.categories@),
            projects: texts(self.projects@),
        }
    }
}

impl PageConfigView {
    /// No tag is named twice, and the date, if there is one, exists.
    pub open spec fn wf(self) -> bool {
        &&& self.categories.no_duplicates()
        &&& self.projects.no_duplicates()
        &&& self.date matches Some(t) ==> t.wf()
    }
}

/// A page of the site: the file it is written to, and its header.
#[derive(Clone, Debug, PartialEq, Eq)]
pub struct Page {
    pub html_file_path: String,
    pub config: PageConfig,
}

pub struct PageView {
    pub html_file_path: Seq<char>,
    pub config: PageConfigView,
}

impl View for Page {
    type V = PageView;

    open spec fn view(&self) -> PageView {
        PageView { html_file_path: self.html_file_path@, config: self.config@ }
    }
}

/// The views of a list of pages, in the same order.
pub open spec fn page_views(pages: Seq<Page>) -> Seq<PageView> {
    pages.map_values(|p: Page| p@)
}

/// The views of pages that a list refers to, in the same order.
pub open spec fn referenced_pages(pages: Seq<&Page>) -> Seq<PageView> {
    pages.map_values(|p: &Page| p@)
}

/// The view of one group of an index: its key and its pages.
pub open spec fn group_view(group: (String, Vec<&Page>)) -> (Seq<char>, Seq<PageView>) {
    (group.0@, referenced_pages(group.1@))
}

/// The views of the groups of an index, in the same order.
pub open spec fn group_views(groups: Seq<(String, Vec<&Page>)>) -> Seq<
    (Seq<char>, Seq<PageView>),
> {
    groups.map_values(|g: (String, Vec<&Page>)| group_view(g))
}

/// Every page of every group carries a date.
pub open spec fn all_dated(years: Seq<(Seq<char>, Seq<PageView>)>) -> bool {
    forall|i: int, j: int|
        0 <= i < years.len() && 0 <= j < years[i].1.len() ==> (#[trigger] years[i].1[j]).config.date
            is Some
}

/// A page together with the HTML fragment rendered from its body.
#[derive(Clone, Debug, PartialEq, Eq)]
pub struct HtmlContent {
    pub page: Page,
    pub content: String,
}

/// A navigation entry: where it leads and what it shows.
#[derive(Clone, Debug, PartialEq, Eq)]
pub struct Link {
    pub url: String,
    pub title: String,
}

pub struct LinkView {
    pub url: Seq<char>,
    pub title: Seq<char>,
}

impl View for Link {
    type V = LinkView;

    open spec fn view(&self) -> LinkView {
        LinkView { url: self.url@, title: self.title@ }
    }
}

/// The views of a list of links, in the same order.
pub open spec fn link_views(links: Seq<Link>) -> Seq<LinkView> {
    links.map_values(|l: Link| l@)
}

/// The settings of the whole site, the same for every document of a run.
#[derive(Clone, Debug, PartialEq, Eq)]
pub struct Website {
    pub base_url: String,
    pub title: String,
    pub menu_items: Vec<Link>,
    pub description: String,
    pub author: String,
    pub year: String,
}

pub struct WebsiteView {
    pub base_url: Seq<char>,
    pub title: Seq<char>,
    pub menu_items: Seq<LinkView>,
    pub description: Seq<char>,
    pub author: Seq<char>,
    pub year: Seq<char>,
}

impl View for Website {
    type V = WebsiteView;

    open spec fn view(&self) -> WebsiteView {
        WebsiteView {
            base_url: self.base_url@,
            title: self.title@,
            menu_items: link_views(self.menu_items@),
            description: self.description@,
            author: self.author@,
            year: self.year@,
        }
    }
}

/// The two kinds of tag that pages carry.
#[derive(Clone, Copy, Debug, PartialEq, Eq, Structural)]
pub enum Taxonomy {
    Categories,
    Projects,
}

impl Taxonomy {
    /// The index that belongs to the taxonomy.
    pub open spec fn grouping(self) -> Grouping {
        match self {
            Taxonomy::Categories => Grouping::Category,
            Taxonomy::Projects => Grouping::Project,
        }
    }

    /// The heading of the taxonomy's list of tags.
    pub open spec fn title(self) -> Seq<char> {
        match self {
            Taxonomy::Categories => "Categories"@,
            Taxonomy::Projects => "Projects"@,
        }
    }

    /// What the heading of a tag's archive starts with.
    pub open spec fn archive_title_prefix(self) -> Seq<char> {
        match self {
            Taxonomy::Categories => "Categories: "@,
            Taxonomy::Projects => "Projects: "@,
        }
    }

    /// The part of a link between the site's base address and the tag.
    pub open spec fn link_segment(self) -> Seq<char> {
        match self {
            Taxonomy::Categories => "/categories/"@,
            Taxonomy::Projects => "/projects/"@,
        }
    }

    /// The directory of the taxonomy in the output tree.
    pub open spec fn directory(self) -> Seq<char> {
        match self {
            Taxonomy::Categories => "public/categories/"@,
            Taxonomy::Projects => "public/projects/"@,
        }
    }
}

/// The link to the archive of a tag: the tag in lower case in the address,
/// the tag as it was written in the text.
pub open spec fn tag_link(base_url: Seq<char>, taxonomy: Taxonomy, tag: Seq<char>) -> LinkView {
    LinkView { url: base_url + taxonomy.link_segment() + lowercased(tag), title: tag }
}

/// The link that a page shows for one of its categories: the link to the
/// archive of the category.
pub open spec fn category_link(base_url: Seq<char>, tag: Seq<char>) -> LinkView {
    tag_link(base_url, Taxonomy::Categories, tag)
}

/// The links that a page shows for its categories, one for each, in the
/// order of declaration.
pub open spec fn category_links(site: WebsiteView, page: PageView) -> Seq<LinkView> {
    page.config.categories.map_values(|tag: Seq<char>| category_link(site.base_url, tag))
}

impl Website {
    /// The link to the archive of `tag`.
    pub fn link_to_tag(&self, taxonomy: Taxonomy, tag: &String) -> (link: Link)
        ensures
            link@ == tag_link(self@.base_url, taxonomy, tag@),
    {
        let mut url = self.base_url.clone();
        match taxonomy {
            Taxonomy::Categories => url.append("/categories/"),
            Taxonomy::Projects => url.append("/projects/"),
        }
        url.append(lowercase(tag.as_str()).as_str());
        Link { url, title: tag.clone() }
    }

    /// The links shown on `page` for the categories that it declares.
    pub fn get_category_links_for_page(&self, page: &Page) -> (links: Vec<Link>)
        ensures
            link_views(links@) == category_links(self@, page@),
    {
        let mut links: Vec<Link> = Vec::new();
        let mut i: usize = 0;
        while i < page.config.categories.len()
            invariant
                i <= page.config.categories@.len(),
                links@.len() == i,
                forall|k: int|
                    0 <= k < i ==> (#[trigger] links@[k])@ == category_link(
                        self.base_url@,
                        page.config.categories@[k]@,
                    ),
            decreases page.config.categories@.len() - i,
        {
            links.push(self.link_to_tag(Taxonomy::Categories, &page.config.categories[i]));
            i += 1;
        }
        assert(link_views(links@) =~= category_links(self@, page@));
        links
    }

    /// The links of the site-wide category menu: there are none.
    pub fn get_all_category_links(&self) -> (links: Vec<Link>)
        ensures
            links@.len() == 0,
    {
        Vec::new()
    }
}

/// The link under which listings refer to a page: the one its header gives,
/// or the path of its output file where the header gives none.
pub open spec fn link_path(declared: Seq<char>, html_file_path: Seq<char>) -> Seq<char> {
    if declared.len() == 0 {
        html_file_path
    } else {
        declared
    }
}

/// The link of a page, given the link that its header declares and the path
/// of its output file.
pub fn prepare_path(path: String, html_file_path: &str) -> (link: String)
    ensures
        link@ == link_path(path@, html_file_path@),
{
    if path.as_str().is_empty() {
        html_file_path.to_owned()
    } else {
        path
    }
}

} // verus!
