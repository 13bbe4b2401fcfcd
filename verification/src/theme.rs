//! The HTML documents of the site: the frame that every document shares, the
//! view of a single page, the archive of pages by year, and the tag lists.
//!
//! Text taken from a page or from the site settings is escaped wherever it
//! is placed into markup; a rendered page body is placed as it is.

use std::fmt::Write;
use vstd::prelude::*;
use vstd::string::*;
use crate::date::{date_text, Timestamp};
use crate::page::{
    all_dated, category_links, link_views, referenced_pages, group_view, group_views,
    Link, LinkView, Page, PageView, Website, WebsiteView,
};

verus! {

/// What stands for one character of a text inside markup.
pub open spec fn escaped_char(c: char) -> Seq<char> {
    if c == '&' {
        "&amp;"@
    } else if c == '<' {
        "&lt;"@
    } else if c == '>' {
        "&gt;"@
    } else if c == '"' {
        "&quot;"@
    } else {
        seq![c]
    }
}

/// A text as it stands inside markup: `&`, `<`, `>` and `"` replaced by their
/// entities, every other character kept.
pub open spec fn escaped(text: Seq<char>) -> Seq<char>
    decreases text.len(),
{
    if text.len() == 0 {
        Seq::empty()
    } else {
        escaped(text.drop_last()) + escaped_char(text.last())
    }
}

/// Escaped text cannot open or close markup: it holds no `<`, no `>` and no
/// `"`.
pub proof fn lemma_escaped_text_holds_no_markup(text: Seq<char>)
    ensures
        forall|i: int|
            0 <= i < escaped(text).len() ==> {
                let c = #[trigger] escaped(text)[i];
                c != '<' && c != '>' && c != '"'
            },
    decreases text.len(),
{
    if text.len() > 0 {
        let before = escaped(text.drop_last());
        let last = escaped_char(text.last());
        lemma_escaped_text_holds_no_markup(text.drop_last());
        reveal_strlit("&amp;");
        reveal_strlit("&lt;");
        reveal_strlit("&gt;");
        reveal_strlit("&quot;");
        assert forall|i: int| 0 <= i < escaped(text).len() implies {
            let c = #[trigger] escaped(text)[i];
            c != '<' && c != '>' && c != '"'
        } by {
            if i < before.len() {
                assert(escaped(text)[i] == before[i]);
            } else {
                assert(escaped(text)[i] == last[i - before.len()]);
            }
        }
    }
}

/// `maud::Escaper`, written to once: it appends `text` to the buffer with
/// `&`, `<`, `>` and `"` replaced by `&amp;`, `&lt;`, `&gt;` and `&quot;`, and
/// passes every other character through.
#[verifier::external_body]
fn push_escaped(out: &mut String, text: &str)
    ensures
        final(out)@ == old(out)@ + escaped(text@),
{
    let _ = maud::Escaper::new(out).write_str(text);
}

/// One entry of a list of links.
pub open spec fn link_item_markup(link: LinkView) -> Seq<char> {
    "<li><a href=\""@ + escaped(link.url) + "\">"@ + escaped(link.title) + "</a></li>"@
}

/// The entries of a list of links, one after the other.
pub open spec fn link_items_markup(links: Seq<LinkView>) -> Seq<char>
    decreases links.len(),
{
    if links.len() == 0 {
        Seq::empty()
    } else {
        link_items_markup(links.drop_last()) + link_item_markup(links.last())
    }
}

/// The banner on top of every document: the site's title, linked to its
/// base address, and the menu.
pub open spec fn header_markup(site: WebsiteView) -> Seq<char> {
    "<header><a href=\""@ + escaped(site.base_url) + "\">"@ + escaped(site.title)
        + "</a><nav><ul>"@ + link_items_markup(site.menu_items) + "</ul></nav></header>"@
}

/// The line at the foot of every document.
pub open spec fn footer_markup(site: WebsiteView) -> Seq<char> {
    "<footer><p>&copy"@ + escaped(site.year) + "&nbsp;<a href=\""@ + escaped(site.base_url)
        + "\">"@ + escaped(site.title) + "</a></p></footer>"@
}

/// A whole document around `main_content`.
pub open spec fn document_markup(site: WebsiteView, main_content: Seq<char>) -> Seq<char> {
    "<!DOCTYPE html><html lang=\"en-us\"><head><meta charset=\"utf-8\"><meta name=\"viewport\" content=\"width=device-width, initial-scale=1\"><meta http-equiv=\"X-UA-Compatible\" content=\"IE=edge\"><meta name=\"description\" content=\""@
        + escaped(site.description) + "\"><meta name=\"author\" content=\""@ + escaped(
        site.author,
    ) + "\"><title>"@ + escaped(site.title)
        + "</title><link rel=\"stylesheet\" href=\"css/style.css\"></head><body>"@
        + header_markup(site) + "<main>"@ + main_content + "</main>"@ + footer_markup(site)
        + "</body></html>"@
}

/// The date line of a page: nothing for an undated page.
pub open spec fn date_markup(date: Option<Timestamp>) -> Seq<char> {
    match date {
        Some(t) => "<time>"@ + escaped(date_text(t)) + "</time>"@,
        None => Seq::empty(),
    }
}

/// The article of a single page: title, date line, the rendered body and the
/// links of its categories.
pub open spec fn article_markup(site: WebsiteView, page: PageView, content: Seq<char>) -> Seq<
    char,
> {
    "<article><h1>"@ + escaped(page.config.title) + "</h1>"@ + date_markup(page.config.date)
        + "<div>"@ + content + "</div><div><ul id=\"tags\">"@ + link_items_markup(
        category_links(site, page),
    ) + "</ul></div></article>"@
}

/// The article of an undated page has no date line: the body follows the
/// title at once.
pub proof fn lemma_undated_article_has_no_date_line(
    site: WebsiteView,
    page: PageView,
    content: Seq<char>,
)
    requires
        page.config.date is None,
    ensures
        article_markup(site, page, content) == "<article><h1>"@ + escaped(page.config.title)
            + "</h1><div>"@ + content + "</div><div><ul id=\"tags\">"@ + link_items_markup(
            category_links(site, page),
        ) + "</ul></div></article>"@,
{
    reveal_strlit("</h1>");
    reveal_strlit("<div>");
    reveal_strlit("</h1><div>");
    let title = "<article><h1>"@ + escaped(page.config.title);
    assert(title + "</h1>"@ + date_markup(page.config.date) + "<div>"@ =~= title + "</h1><div>"@);
}

/// The document of a single page.
pub open spec fn single_page_markup(site: WebsiteView, page: PageView, content: Seq<char>) -> Seq<
    char,
> {
    document_markup(site, article_markup(site, page, content))
}

/// One entry of an archive: the page's date, and its title linked to it.
pub open spec fn archive_item_markup(page: PageView) -> Seq<char> {
    "<li><time>"@ + escaped(date_text(page.config.date->0)) + "</time>&nbsp;<a href=\""@
        + escaped(page.config.path) + "\">"@ + escaped(page.config.title) + "</a></li>"@
}

/// The entries of an archive for the pages of one year.
pub open spec fn archive_items_markup(pages: Seq<PageView>) -> Seq<char>
    decreases pages.len(),
{
    if pages.len() == 0 {
        Seq::empty()
    } else {
        archive_items_markup(pages.drop_last()) + archive_item_markup(pages.last())
    }
}

/// One year of an archive: its heading and its entries.
pub open spec fn archive_year_markup(year: Seq<char>, pages: Seq<PageView>) -> Seq<char> {
    "<li><h2>"@ + escaped(year) + "</h2>"@ + archive_items_markup(pages) + "</li>"@
}

/// The years of an archive, one after the other.
pub open spec fn archive_years_markup(years: Seq<(Seq<char>, Seq<PageView>)>) -> Seq<char>
    decreases years.len(),
{
    if years.len() == 0 {
        Seq::empty()
    } else {
        archive_years_markup(years.drop_last()) + archive_year_markup(
            years.last().0,
            years.last().1,
        )
    }
}

/// The document of an archive: a heading and the pages year by year.
pub open spec fn archive_markup(
    site: WebsiteView,
    title: Seq<char>,
    years: Seq<(Seq<char>, Seq<PageView>)>,
) -> Seq<char> {
    document_markup(
        site,
        "<h1>"@ + escaped(title) + "</h1><div><ul id=\"articles\">"@ + archive_years_markup(years)
            + "</ul></div>"@,
    )
}

/// A heading over a list of links.
pub open spec fn taxonomy_markup(title: Seq<char>, links: Seq<LinkView>) -> Seq<char> {
    "<article><h1>"@ + escaped(title) + "</h1><div><ul id=\"tags\">"@ + link_items_markup(links)
        + "</ul></div></article>"@
}

/// The document of a tag list.
pub open spec fn taxonomy_list_markup(
    site: WebsiteView,
    title: Seq<char>,
    links: Seq<LinkView>,
) -> Seq<char> {
    document_markup(site, taxonomy_markup(title, links))
}

fn link_item(link: &Link) -> (html: String)
    ensures
        html@ == link_item_markup(link@),
{
    let mut html = "<li><a href=\"".to_owned();
    push_escaped(&mut html, link.url.as_str());
    html.append("\">");
    push_escaped(&mut html, link.title.as_str());
    html.append("</a></li>");
    html
}

fn link_items(links: &Vec<Link>) -> (html: String)
    ensures
        html@ == link_items_markup(link_views(links@)),
{
    let mut html = String::new();
    let mut i: usize = 0;
    while i < links.len()
        invariant
            i <= links@.len(),
            html@ == link_items_markup(link_views(links@).take(i as int)),
        decreases links@.len() - i,
    {
        let item = link_item(&links[i]);
        proof {
            let done = link_views(links@).take(i + 1);
            assert(done.drop_last() =~= link_views(links@).take(i as int));
            assert(done.last() == links@[i as int]@);
        }
        html.append(item.as_str());
        i += 1;
    }
    proof {
        assert(link_views(links@).take(links@.len() as int) =~= link_views(links@));
    }
    html
}

fn header(website: &Website) -> (html: String)
    ensures
        html@ == header_markup(website@),
{
    let mut html = "<header><a href=\"".to_owned();
    push_escaped(&mut html, website.base_url.as_str());
    html.append("\">");
    push_escaped(&mut html, website.title.as_str());
    html.append("</a><nav><ul>");
    html.append(link_items(&website.menu_items).as_str());
    html.append("</ul></nav></header>");
    html
}

fn footer(website: &Website) -> (html: String)
    ensures
        html@ == footer_markup(website@),
{
    let mut html = "<footer><p>&copy".to_owned();
    push_escaped(&mut html, website.year.as_str());
    html.append("&nbsp;<a href=\"");
    push_escaped(&mut html, website.base_url.as_str());
    html.append("\">");
    push_escaped(&mut html, website.title.as_str());
    html.append("</a></p></footer>");
    html
}

fn baseof(website: &Website, main_content: &str) -> (html: String)
    ensures
        html@ == document_markup(website@, main_content@),
{
    let mut html =
        "<!DOCTYPE html><html lang=\"en-us\"><head><meta charset=\"utf-8\"><meta name=\"viewport\" content=\"width=device-width, initial-scale=1\"><meta http-equiv=\"X-UA-Compatible\" content=\"IE=edge\"><meta name=\"description\" content=\"".to_owned();
    push_escaped(&mut html, website.description.as_str());
    html.append("\"><meta name=\"author\" content=\"");
    push_escaped(&mut html, website.author.as_str());
    html.append("\"><title>");
    push_escaped(&mut html, website.title.as_str());
    html.append("</title><link rel=\"stylesheet\" href=\"css/style.css\"></head><body>");
    html.append(header(website).as_str());
    html.append("<main>");
    html.append(main_content);
    html.append("</main>");
    html.append(footer(website).as_str());
    html.append("</body></html>");
    html
}

fn date_line(date: &Option<Timestamp>) -> (html: String)
    ensures
        html@ == date_markup(*date),
{
    match date {
        Some(t) => {
            let mut html = "<time>".to_owned();
            push_escaped(&mut html, t.format_date().as_str());
            html.append("</time>");
            html
        },
        None => String::new(),
    }
}

/// The document of a single page around its rendered body.
pub fn single_page(website: &Website, page: &Page, page_content: String) -> (html: String)
    ensures
        html@ == single_page_markup(website@, page@, page_content@),
{
    let links = website.get_category_links_for_page(page);
    let mut content = "<article><h1>".to_owned();
    push_escaped(&mut content, page.config.title.as_str());
    content.append("</h1>");
    content.append(date_line(&page.config.date).as_str());
    content.append("<div>");
    content.append(page_content.as_str());
    content.append("</div><div><ul id=\"tags\">");
    content.append(link_items(&links).as_str());
    content.append("</ul></div></article>");
    baseof(website, content.as_str())
}

fn archive_item(article: &Page) -> (html: String)
    requires
        article.config.date is Some,
    ensures
        html@ == archive_item_markup(article@),
{
    let date = match article.config.date {
        Some(t) => t,
        None => Timestamp { year: 0, month: 1, day: 1, hour: 0, minute: 0 },
    };
    let mut html = "<li><time>".to_owned();
    push_escaped(&mut html, date.format_date().as_str());
    html.append("</time>&nbsp;<a href=\"");
    push_escaped(&mut html, article.config.path.as_str());
    html.append("\">");
    push_escaped(&mut html, article.config.title.as_str());
    html.append("</a></li>");
    html
}

fn archive_year(year: &str, articles: &Vec<&Page>) -> (html: String)
    requires
        forall|j: int| 0 <= j < articles@.len() ==> (#[trigger] articles@[j]).config.date is Some,
    ensures
        html@ == archive_year_markup(year@, referenced_pages(articles@)),
{
    let mut items = String::new();
    let mut j: usize = 0;
    while j < articles.len()
        invariant
            j <= articles@.len(),
            forall|k: int|
                0 <= k < articles@.len() ==> (#[trigger] articles@[k]).config.date is Some,
            items@ == archive_items_markup(referenced_pages(articles@).take(j as int)),
        decreases articles@.len() - j,
    {
        let item = archive_item(articles[j]);
        proof {
            let done = referenced_pages(articles@).take(j + 1);
            assert(done.drop_last() =~= referenced_pages(articles@).take(j as int));
            assert(done.last() == articles@[j as int]@);
        }
        items.append(item.as_str());
        j += 1;
    }
    proof {
        assert(referenced_pages(articles@).take(articles@.len() as int) =~= referenced_pages(
            articles@,
        ));
    }
    let mut html = "<li><h2>".to_owned();
    push_escaped(&mut html, year);
    html.append("</h2>");
    html.append(items.as_str());
    html.append("</li>");
    html
}

/// The document of an archive under `title`: the pages of each year under
/// the year's heading, years and pages in the order given.
pub fn archive(website: &Website, title: &str, year_to_articles: Vec<(String, Vec<&Page>)>) -> (html:
    String)
    requires
        all_dated(group_views(year_to_articles@)),
    ensures
        html@ == archive_markup(website@, title@, group_views(year_to_articles@)),
{
    let ghost years = group_views(year_to_articles@);
    let mut listed = String::new();
    let mut i: usize = 0;
    while i < year_to_articles.len()
        invariant
            i <= year_to_articles@.len(),
            years == group_views(year_to_articles@),
            all_dated(years),
            listed@ == archive_years_markup(years.take(i as int)),
        decreases year_to_articles@.len() - i,
    {
        let group = &year_to_articles[i];
        proof {
            assert(years[i as int] == group_view(year_to_articles@[i as int]));
            assert forall|j: int| 0 <= j < group.1@.len() implies (#[trigger] group.1@[j]).config.date
                is Some by {
                assert(years[i as int].1[j] == group.1@[j]@);
            }
        }
        let year = archive_year(group.0.as_str(), &group.1);
        proof {
            let done = years.take(i + 1);
            assert(done.drop_last() =~= years.take(i as int));
            assert(done.last() == years[i as int]);
        }
        listed.append(year.as_str());
        i += 1;
    }
    proof {
        assert(years.take(year_to_articles@.len() as int) =~= years);
    }
    let mut content = "<h1>".to_owned();
    push_escaped(&mut content, title);
    content.append("</h1><div><ul id=\"articles\">");
    content.append(listed.as_str());
    content.append("</ul></div>");
    baseof(website, content.as_str())
}

fn taxonomy_item_list(title: &str, links: Vec<Link>) -> (html: String)
    ensures
        html@ == taxonomy_markup(title@, link_views(links@)),
{
    let mut html = "<article><h1>".to_owned();
    push_escaped(&mut html, title);
    html.append("</h1><div><ul id=\"tags\">");
    html.append(link_items(&links).as_str());
    html.append("</ul></div></article>");
    html
}

/// The document that lists the categories of the site.
pub fn category_list(website: &Website, title: &str, links: Vec<Link>) -> (html: String)
    ensures
        html@ == taxonomy_list_markup(website@, title@, link_views(links@)),
{
    let content = taxonomy_item_list(title, links);
    baseof(website, content.as_str())
}

/// The document that lists the projects of the site.
pub fn project_list(website: &Website, title: &str, links: Vec<Link>) -> (html: String)
    ensures
        html@ == taxonomy_list_markup(website@, title@, link_views(links@)),
{
    let content = taxonomy_item_list(title, links);
    baseof(website, content.as_str())
}

} // verus!
