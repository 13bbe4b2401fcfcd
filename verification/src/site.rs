//! The build of a site: from content files to pages, and from pages to the
//! files of the output tree.
//!
//! A content file becomes a page and its rendered body. Once every file has
//! become a page, each body is wrapped into its document, and the listings
//! are made from the full list of pages: the archive of the site, then the
//! categories, then the projects. One file that fails stops the build.

use vstd::prelude::*;
use vstd::string::*;
use crate::error::BuildError;
use crate::index::{
    group_keys, index_of, pages_by_category, pages_by_project, year_index, Grouping,
};
use crate::markdown::{document_content, parse_document_content, RenderOptions, RenderOptionsView};
use crate::page::{
    group_views, link_path, link_views, prepare_path, referenced_pages, tag_link, HtmlContent,
    Link, LinkView, Page, PageConfig, PageConfigView, PageView, Taxonomy, Website, WebsiteView,
};
use crate::paths::{get_html_file_path, html_file_path};
use crate::text::{lowercase, lowercased};
use crate::theme::{
    archive, archive_markup, category_list, project_list, single_page, single_page_markup,
    taxonomy_list_markup,
};

verus! {

/// The page and the rendered body that a content file stands for.
///
/// The output path follows from the path of the file alone. The header
/// decides the rest; where it gives no link of its own, the output path is
/// the page's link. A file outside the content tree is refused before its
/// text is looked at.
pub open spec fn page_data(
    filename: Seq<char>,
    contents: Seq<char>,
    options: RenderOptionsView,
) -> Result<(PageView, Seq<char>), BuildError> {
    match html_file_path(filename) {
        Err(e) => Err(e),
        Ok(path) => match document_content(contents, options) {
            Err(e) => Err(e),
            Ok(content) => Ok(
                (
                    PageView {
                        html_file_path: path,
                        config: PageConfigView {
                            path: link_path(content.0.path, path),
                            ..content.0
                        },
                    },
                    content.1,
                ),
            ),
        },
    }
}

/// Makes the page of the content file at `filename` from the text of the
/// file.
pub fn prepare_page_data(filename: &str, contents: &str, options: &RenderOptions) -> (data: Result<
    HtmlContent,
    BuildError,
>)
    requires
        options@.wf(),
    ensures
        data matches Ok(d) ==> page_data(filename@, contents@, options@) == Ok::<_, BuildError>(
            (d.page@, d.content@),
        ) && d.page@.config.wf(),
        data matches Err(e) ==> page_data(filename@, contents@, options@) == Err::<
            (PageView, Seq<char>),
            _,
        >(e),
{
    let html_file_path = match get_html_file_path(filename) {
        Ok(path) => path,
        Err(e) => {
            return Err(e);
        },
    };
    let markdown_content = match parse_document_content(contents, options) {
        Ok(content) => content,
        Err(e) => {
            return Err(e);
        },
    };
    let config = PageConfig {
        title: markdown_content.original_config.title,
        path: prepare_path(markdown_content.original_config.path, html_file_path.as_str()),
        date: markdown_content.original_config.date,
        categories: markdown_content.original_config.categories,
        projects: markdown_content.original_config.projects,
    };
    let page = Page { html_file_path, config };
    Ok(HtmlContent { page, content: markdown_content.rendered_html })
}

/// A file of the output tree: where it is written, and what it holds.
#[derive(Clone, Debug, PartialEq, Eq)]
pub struct OutputFile {
    pub path: String,
    pub content: String,
}

impl View for OutputFile {
    type V = (Seq<char>, Seq<char>);

    open spec fn view(&self) -> (Seq<char>, Seq<char>) {
        (self.path@, self.content@)
    }
}

/// The views of a list of output files, in the same order.
pub open spec fn file_views(files: Seq<OutputFile>) -> Seq<(Seq<char>, Seq<char>)> {
    files.map_values(|f: OutputFile| f@)
}

/// The view of a page with its rendered body.
pub open spec fn content_view(content: HtmlContent) -> (PageView, Seq<char>) {
    (content.page@, content.content@)
}

/// The views of a list of pages with their bodies, in the same order.
pub open spec fn content_views(contents: Seq<HtmlContent>) -> Seq<(PageView, Seq<char>)> {
    contents.map_values(|c: HtmlContent| content_view(c))
}

/// The pages of a list of pages with their bodies.
pub open spec fn pages_of(contents: Seq<(PageView, Seq<char>)>) -> Seq<PageView> {
    contents.map_values(|c: (PageView, Seq<char>)| c.0)
}

/// The file that holds a page before it is wrapped: its rendered body, at
/// the page's output path.
pub open spec fn body_file(content: (PageView, Seq<char>)) -> (Seq<char>, Seq<char>) {
    (content.0.html_file_path, content.1)
}

/// The file of a page: its document, at the page's output path.
pub open spec fn page_file(site: WebsiteView, content: (PageView, Seq<char>)) -> (
    Seq<char>,
    Seq<char>,
) {
    (content.0.html_file_path, single_page_markup(site, content.0, content.1))
}

/// The files of the pages, in the order of the pages.
pub open spec fn page_files(site: WebsiteView, contents: Seq<(PageView, Seq<char>)>) -> Seq<
    (Seq<char>, Seq<char>),
> {
    contents.map_values(|c: (PageView, Seq<char>)| page_file(site, c))
}

/// The archive of the whole site, at the root of the output tree: every
/// dated page under its year.
pub open spec fn archive_file(site: WebsiteView, pages: Seq<PageView>) -> (Seq<char>, Seq<char>) {
    ("public/index.html"@, archive_markup(site, "Archive"@, index_of(pages, Grouping::Year)))
}

/// The links to the archives of tags, in the order of the tags.
pub open spec fn tag_links(base_url: Seq<char>, taxonomy: Taxonomy, tags: Seq<Seq<char>>) -> Seq<
    LinkView,
> {
    tags.map_values(|tag: Seq<char>| tag_link(base_url, taxonomy, tag))
}

/// The list of the tags of a taxonomy, in its directory.
pub open spec fn taxonomy_index_file(
    site: WebsiteView,
    taxonomy: Taxonomy,
    tags: Seq<Seq<char>>,
) -> (Seq<char>, Seq<char>) {
    (
        taxonomy.directory() + "index.html"@,
        taxonomy_list_markup(site, taxonomy.title(), tag_links(site.base_url, taxonomy, tags)),
    )
}

/// The archive of one tag, in a directory named by the tag in lower case:
/// the dated pages that carry the tag, under their years.
pub open spec fn tag_archive_file(
    site: WebsiteView,
    taxonomy: Taxonomy,
    group: (Seq<char>, Seq<PageView>),
) -> (Seq<char>, Seq<char>) {
    (
        taxonomy.directory() + lowercased(group.0) + "/index.html"@,
        archive_markup(
            site,
            taxonomy.archive_title_prefix() + group.0,
            index_of(group.1, Grouping::Year),
        ),
    )
}

/// The archives of the tags of an index, in the order of the index.
pub open spec fn tag_archive_files(
    site: WebsiteView,
    taxonomy: Taxonomy,
    groups: Seq<(Seq<char>, Seq<PageView>)>,
) -> Seq<(Seq<char>, Seq<char>)> {
    groups.map_values(|g: (Seq<char>, Seq<PageView>)| tag_archive_file(site, taxonomy, g))
}

/// The files of a taxonomy: the list of its tags, then the archive of each
/// tag, tags in ascending order.
pub open spec fn taxonomy_files(site: WebsiteView, taxonomy: Taxonomy, pages: Seq<PageView>) -> Seq<
    (Seq<char>, Seq<char>),
> {
    let groups = index_of(pages, taxonomy.grouping());
    seq![taxonomy_index_file(site, taxonomy, group_keys(groups))] + tag_archive_files(
        site,
        taxonomy,
        groups,
    )
}

/// The listings of a site: its archive, then the files of the categories,
/// then the files of the projects.
pub open spec fn listing_files(site: WebsiteView, pages: Seq<PageView>) -> Seq<
    (Seq<char>, Seq<char>),
> {
    seq![archive_file(site, pages)] + taxonomy_files(site, Taxonomy::Categories, pages)
        + taxonomy_files(site, Taxonomy::Projects, pages)
}

/// The files of a site: the files of its pages, then its listings.
pub open spec fn site_files(site: WebsiteView, contents: Seq<(PageView, Seq<char>)>) -> Seq<
    (Seq<char>, Seq<char>),
> {
    page_files(site, contents) + listing_files(site, pages_of(contents))
}

/// The file of a page as it stands before the page is wrapped.
pub fn save_to_html_file(html: &HtmlContent) -> (file: OutputFile)
    ensures
        file@ == body_file(content_view(*html)),
{
    OutputFile { path: html.page.html_file_path.clone(), content: html.content.clone() }
}

/// Wraps the body of each page into its document.
pub fn wrap_pages(website: &Website, contents: &Vec<HtmlContent>) -> (files: Vec<OutputFile>)
    ensures
        file_views(files@) == page_files(website@, content_views(contents@)),
{
    let mut files: Vec<OutputFile> = Vec::new();
    let mut i: usize = 0;
    while i < contents.len()
        invariant
            i <= contents@.len(),
            files@.len() == i,
            forall|k: int|
                0 <= k < i ==> (#[trigger] files@[k])@ == page_file(
                    website@,
                    content_view(contents@[k]),
                ),
        decreases contents@.len() - i,
    {
        let html = &contents[i];
        let document = single_page(website, &html.page, html.content.clone());
        files.push(OutputFile { path: html.page.html_file_path.clone(), content: document });
        i += 1;
    }
    assert(file_views(files@) =~= page_files(website@, content_views(contents@)));
    files
}

/// The archive of the whole site.
pub fn site_archive(website: &Website, pages: &Vec<&Page>) -> (file: OutputFile)
    ensures
        file@ == archive_file(website@, referenced_pages(pages@)),
{
    let sorted_pages_by_year = year_index(pages);
    OutputFile {
        path: "public/index.html".to_owned(),
        content: archive(website, "Archive", sorted_pages_by_year),
    }
}

/// The links to the archives of the tags of an index.
pub fn all_tag_links(
    website: &Website,
    taxonomy: Taxonomy,
    groups: &Vec<(String, Vec<&Page>)>,
) -> (links: Vec<Link>)
    ensures
        link_views(links@) == tag_links(
            website@.base_url,
            taxonomy,
            group_keys(group_views(groups@)),
        ),
{
    let mut links: Vec<Link> = Vec::new();
    let mut i: usize = 0;
    while i < groups.len()
        invariant
            i <= groups@.len(),
            links@.len() == i,
            forall|k: int|
                0 <= k < i ==> (#[trigger] links@[k])@ == tag_link(
                    website.base_url@,
                    taxonomy,
                    groups@[k].0@,
                ),
        decreases groups@.len() - i,
    {
        links.push(website.link_to_tag(taxonomy, &groups[i].0));
        i += 1;
    }
    assert(link_views(links@) =~= tag_links(
        website@.base_url,
        taxonomy,
        group_keys(group_views(groups@)),
    ));
    links
}

/// The archive of one tag.
fn tag_archive(website: &Website, taxonomy: Taxonomy, tag: &String, pages: &Vec<&Page>) -> (file:
    OutputFile)
    ensures
        file@ == tag_archive_file(website@, taxonomy, (tag@, referenced_pages(pages@))),
{
    let mut title = match taxonomy {
        Taxonomy::Categories => "Categories: ".to_owned(),
        Taxonomy::Projects => "Projects: ".to_owned(),
    };
    title.append(tag.as_str());
    let mut path = match taxonomy {
        Taxonomy::Categories => "public/categories/".to_owned(),
        Taxonomy::Projects => "public/projects/".to_owned(),
    };
    path.append(lowercase(tag.as_str()).as_str());
    path.append("/index.html");
    OutputFile { path, content: archive(website, title.as_str(), year_index(pages)) }
}

/// The files of a taxonomy: the list of its tags, then the archive of each
/// tag.
pub fn taxonomy_listing(website: &Website, taxonomy: Taxonomy, pages: &Vec<&Page>) -> (files: Vec<
    OutputFile,
>)
    ensures
        file_views(files@) == taxonomy_files(website@, taxonomy, referenced_pages(pages@)),
{
    let groups = match taxonomy {
        Taxonomy::Categories => pages_by_category(pages),
        Taxonomy::Projects => pages_by_project(pages),
    };
    let links = all_tag_links(website, taxonomy, &groups);
    let mut path = match taxonomy {
        Taxonomy::Categories => "public/categories/".to_owned(),
        Taxonomy::Projects => "public/projects/".to_owned(),
    };
    path.append("index.html");
    let list = match taxonomy {
        Taxonomy::Categories => category_list(website, "Categories", links),
        Taxonomy::Projects => project_list(website, "Projects", links),
    };
    let ghost built = group_views(groups@);
    let ghost first = taxonomy_index_file(website@, taxonomy, group_keys(built));
    let mut files: Vec<OutputFile> = Vec::new();
    files.push(OutputFile { path, content: list });
    let mut i: usize = 0;
    while i < groups.len()
        invariant
            i <= groups@.len(),
            built == group_views(groups@),
            files@.len() == i + 1,
            files@[0]@ == first,
            forall|k: int|
                0 <= k < i ==> (#[trigger] files@[k + 1])@ == tag_archive_file(
                    website@,
                    taxonomy,
                    built[k],
                ),
        decreases groups@.len() - i,
    {
        let group = &groups[i];
        let file = tag_archive(website, taxonomy, &group.0, &group.1);
        files.push(file);
        i += 1;
    }
    proof {
        let expected = taxonomy_files(website@, taxonomy, referenced_pages(pages@));
        assert(file_views(files@).len() == expected.len());
        assert forall|k: int| 0 <= k < expected.len() implies file_views(files@)[k]
            == expected[k] by {
            if k > 0 {
                assert(files@[(k - 1) + 1]@ == tag_archive_file(website@, taxonomy, built[k - 1]));
            }
        }
        assert(file_views(files@) =~= expected);
    }
    files
}

/// Appends the files of `more` to `files`.
fn append_files(files: &mut Vec<OutputFile>, more: Vec<OutputFile>)
    ensures
        file_views(final(files)@) == file_views(old(files)@) + file_views(more@),
{
    let ghost before = file_views(files@);
    let ghost added = file_views(more@);
    let mut more = more;
    files.append(&mut more);
    assert(file_views(files@) =~= before + added);
}

/// The listings of a site, made from the full list of its pages.
pub fn site_listings(website: &Website, pages: &Vec<&Page>) -> (files: Vec<OutputFile>)
    ensures
        file_views(files@) == listing_files(website@, referenced_pages(pages@)),
{
    let mut files: Vec<OutputFile> = Vec::new();
    files.push(site_archive(website, pages));
    assert(file_views(files@) =~= seq![archive_file(website@, referenced_pages(pages@))]);
    append_files(&mut files, taxonomy_listing(website, Taxonomy::Categories, pages));
    append_files(&mut files, taxonomy_listing(website, Taxonomy::Projects, pages));
    files
}

/// The pages of a list of pages with their bodies, by reference.
fn pages_in<'a>(contents: &'a Vec<HtmlContent>) -> (pages: Vec<&'a Page>)
    ensures
        referenced_pages(pages@) == pages_of(content_views(contents@)),
{
    let mut pages: Vec<&'a Page> = Vec::new();
    let mut i: usize = 0;
    while i < contents.len()
        invariant
            i <= contents@.len(),
            pages@.len() == i,
            forall|k: int| 0 <= k < i ==> (#[trigger] pages@[k])@ == contents@[k].page@,
        decreases contents@.len() - i,
    {
        pages.push(&contents[i].page);
        i += 1;
    }
    assert(referenced_pages(pages@) =~= pages_of(content_views(contents@)));
    pages
}

/// The files of a site whose content files have all become pages: the
/// document of each page, then the listings.
pub fn build_documents(website: &Website, contents: &Vec<HtmlContent>) -> (files: Vec<OutputFile>)
    ensures
        file_views(files@) == site_files(website@, content_views(contents@)),
{
    let mut files = wrap_pages(website, contents);
    let pages = pages_in(contents);
    append_files(&mut files, site_listings(website, &pages));
    files
}

/// A content file: its path, and its text.
#[derive(Clone, Debug, PartialEq, Eq)]
pub struct SourceFile {
    pub path: String,
    pub contents: String,
}

impl View for SourceFile {
    type V = (Seq<char>, Seq<char>);

    open spec fn view(&self) -> (Seq<char>, Seq<char>) {
        (self.path@, self.contents@)
    }
}

/// The views of a list of content files, in the same order.
pub open spec fn source_views(sources: Seq<SourceFile>) -> Seq<(Seq<char>, Seq<char>)> {
    sources.map_values(|s: SourceFile| s@)
}

/// The pages of the content files, in the order of the files, or the reason
/// for which the first file that fails cannot become a page.
pub open spec fn pages_data(
    sources: Seq<(Seq<char>, Seq<char>)>,
    options: RenderOptionsView,
) -> Result<Seq<(PageView, Seq<char>)>, BuildError>
    decreases sources.len(),
{
    if sources.len() == 0 {
        Ok(Seq::empty())
    } else {
        match pages_data(sources.drop_last(), options) {
            Err(e) => Err(e),
            Ok(earlier) => match page_data(sources.last().0, sources.last().1, options) {
                Err(e) => Err(e),
                Ok(data) => Ok(earlier.push(data)),
            },
        }
    }
}

/// The files of the site that the content files stand for; none at all
/// where one of them fails.
pub open spec fn built_site(
    site: WebsiteView,
    sources: Seq<(Seq<char>, Seq<char>)>,
    options: RenderOptionsView,
) -> Result<Seq<(Seq<char>, Seq<char>)>, BuildError> {
    match pages_data(sources, options) {
        Err(e) => Err(e),
        Ok(contents) => Ok(site_files(site, contents)),
    }
}

/// Makes the pages of the content files, in the order of the files. The
/// first file that fails ends the pass.
pub fn prepare_pages(sources: &Vec<SourceFile>, options: &RenderOptions) -> (pages: Result<
    Vec<HtmlContent>,
    BuildError,
>)
    requires
        options@.wf(),
    ensures
        pages matches Ok(p) ==> pages_data(source_views(sources@), options@) == Ok::<
            _,
            BuildError,
        >(content_views(p@)),
        pages matches Err(e) ==> pages_data(source_views(sources@), options@) == Err::<
            Seq<(PageView, Seq<char>)>,
            _,
        >(e),
{
    let mut contents: Vec<HtmlContent> = Vec::new();
    let mut i: usize = 0;
    assert(content_views(contents@) =~= Seq::empty());
    while i < sources.len()
        invariant
            options@.wf(),
            i <= sources@.len(),
            pages_data(source_views(sources@).take(i as int), options@) == Ok::<_, BuildError>(
                content_views(contents@),
            ),
        decreases sources@.len() - i,
    {
        proof {
            let done = source_views(sources@).take(i + 1);
            assert(done.drop_last() =~= source_views(sources@).take(i as int));
            assert(done.last() == sources@[i as int]@);
        }
        let source = &sources[i];
        match prepare_page_data(source.path.as_str(), source.contents.as_str(), options) {
            Ok(data) => {
                let ghost before = content_views(contents@);
                let ghost added = content_view(data);
                contents.push(data);
                assert(content_views(contents@) =~= before.push(added));
            },
            Err(e) => {
                proof {
                    lemma_failure_is_final(source_views(sources@), options@, i + 1);
                }
                return Err(e);
            },
        }
        i += 1;
    }
    proof {
        assert(source_views(sources@).take(sources@.len() as int) =~= source_views(sources@));
    }
    Ok(contents)
}

/// Once the files up to some point have failed, so have all the files.
pub proof fn lemma_failure_is_final(
    sources: Seq<(Seq<char>, Seq<char>)>,
    options: RenderOptionsView,
    upto: int,
)
    requires
        0 <= upto <= sources.len(),
        pages_data(sources.take(upto), options) is Err,
    ensures
        pages_data(sources, options) == pages_data(sources.take(upto), options),
    decreases sources.len() - upto,
{
    if upto == sources.len() {
        assert(sources.take(upto) =~= sources);
    } else {
        let next = sources.take(upto + 1);
        assert(next.drop_last() =~= sources.take(upto));
        lemma_failure_is_final(sources, options, upto + 1);
    }
}

/// Builds the site that the content files stand for.
pub fn build_site(website: &Website, sources: &Vec<SourceFile>, options: &RenderOptions) -> (files:
    Result<Vec<OutputFile>, BuildError>)
    requires
        options@.wf(),
    ensures
        files matches Ok(f) ==> built_site(website@, source_views(sources@), options@) == Ok::<
            _,
            BuildError,
        >(file_views(f@)),
        files matches Err(e) ==> built_site(website@, source_views(sources@), options@) == Err::<
            Seq<(Seq<char>, Seq<char>)>,
            _,
        >(e),
{
    match prepare_pages(sources, options) {
        Ok(contents) => Ok(build_documents(website, &contents)),
        Err(e) => Err(e),
    }
}

/// Where a page is written follows from the path of its content file alone:
/// whatever the file holds, a page made from it has the output path that
/// belongs to the path of the file.
pub proof fn lemma_output_path_ignores_contents(
    filename: Seq<char>,
    contents: Seq<char>,
    options: RenderOptionsView,
)
    requires
        page_data(filename, contents, options) is Ok,
    ensures
        html_file_path(filename) == Ok::<_, BuildError>(
            page_data(filename, contents, options)->Ok_0.0.html_file_path,
        ),
{
}

/// One content file that cannot become a page leaves the site without any
/// file.
pub proof fn lemma_one_failure_fails_the_build(
    site: WebsiteView,
    sources: Seq<(Seq<char>, Seq<char>)>,
    options: RenderOptionsView,
    at: int,
)
    requires
        0 <= at < sources.len(),
        page_data(sources[at].0, sources[at].1, options) is Err,
    ensures
        built_site(site, sources, options) is Err,
    decreases sources.len(),
{
    if at < sources.len() - 1 {
        lemma_one_failure_fails_the_build(site, sources.drop_last(), options, at);
    }
}

/// Every page has its own file among the files of a site: the first files
/// are the documents of the pages, one for each page and in their order.
pub proof fn lemma_every_page_has_its_file(
    site: WebsiteView,
    contents: Seq<(PageView, Seq<char>)>,
    at: int,
)
    requires
        0 <= at < contents.len(),
    ensures
        site_files(site, contents)[at] == page_file(site, contents[at]),
{
}

/// The same content under the same settings gives the same site: two builds
/// that each meet the contract of the build agree file by file, in paths and
/// in what the files hold.
pub proof fn lemma_same_input_same_site(
    site: WebsiteView,
    sources: Seq<(Seq<char>, Seq<char>)>,
    options: RenderOptionsView,
    first: Result<Seq<(Seq<char>, Seq<char>)>, BuildError>,
    second: Result<Seq<(Seq<char>, Seq<char>)>, BuildError>,
)
    requires
        first == built_site(site, sources, options),
        second == built_site(site, sources, options),
    ensures
        first == second,
{
}

} // verus!
