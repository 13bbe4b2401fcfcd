//! How often elements occur in the documents of the site.
//!
//! The contracts of the theme fix every document character by character.
//! What is counted here follows from them: the entries of a list, and the
//! date lines of pages and archives, as occurrences of `<li>` and of `<time`
//! in the text of a document.

use vstd::prelude::*;
use crate::occurrences::{
    count, holds, lemma_enclosed, lemma_joined, lemma_scanned, lemma_without_first_char, scan,
    start_from,
};
use crate::index::{group_keys, has_key, index_of, members, occurs, Grouping};
use crate::page::{category_links, LinkView, PageView, Taxonomy, WebsiteView};
use crate::site::taxonomy_index_file;
use crate::sorting::lemma_index_exists;
use crate::theme::{
    archive_item_markup, archive_items_markup, archive_markup, archive_year_markup,
    archive_years_markup, article_markup, date_markup, document_markup, escaped, footer_markup,
    header_markup, lemma_escaped_text_holds_no_markup, link_item_markup, link_items_markup,
    single_page_markup, taxonomy_list_markup, taxonomy_markup,
};

verus! {

/// The two beginnings of elements that are counted: that of a date line and
/// that of a list entry.
pub open spec fn is_element_start(pattern: Seq<char>) -> bool {
    pattern == "<time"@ || pattern == "<li>"@
}

/// One where date lines are counted, nothing where list entries are.
pub open spec fn times(pattern: Seq<char>) -> nat {
    if pattern == "<time"@ {
        1
    } else {
        0
    }
}

/// One where list entries are counted, nothing where date lines are.
pub open spec fn items(pattern: Seq<char>) -> nat {
    if pattern == "<li>"@ {
        1
    } else {
        0
    }
}

/// `n` where date lines are counted, nothing where list entries are.
pub open spec fn times_in(pattern: Seq<char>, n: nat) -> nat {
    if pattern == "<time"@ {
        n
    } else {
        0
    }
}

/// `n` where list entries are counted, nothing where date lines are.
pub open spec fn items_in(pattern: Seq<char>, n: nat) -> nat {
    if pattern == "<li>"@ {
        n
    } else {
        0
    }
}

/// The number of pages in the groups of an archive.
pub open spec fn listed_pages(years: Seq<(Seq<char>, Seq<PageView>)>) -> nat
    decreases years.len(),
{
    if years.len() == 0 {
        0
    } else {
        listed_pages(years.drop_last()) + years.last().1.len()
    }
}

proof fn lemma_patterns_differ()
    ensures
        "<time"@ != "<li>"@,
        "<time"@.len() == 5,
        "<li>"@.len() == 4,
        "<time"@[0] == '<',
        "<li>"@[0] == '<',
{
    reveal_strlit("<time");
    reveal_strlit("<li>");
    assert("<time"@.len() == 5 && "<li>"@.len() == 4);
}

proof fn lemma_link_open(pattern: Seq<char>)
    requires
        is_element_start(pattern),
    ensures
        holds("<li><a href=\""@, pattern, items(pattern)),
{
    let text = "<li><a href=\""@;
    reveal_strlit("<li><a href=\"");
    reveal_strlit("<time");
    reveal_strlit("<li>");
    reveal_with_fuel(scan, 42);
    reveal_with_fuel(start_from, 6);
    if pattern == "<time"@ {
        assert(scan(text, pattern, 0) == Some(0nat));
        lemma_scanned(text, pattern, 0);
    } else {
        assert(scan(text, pattern, 0) == Some(1nat));
        lemma_scanned(text, pattern, 1);
    }
}

proof fn lemma_attribute_end(pattern: Seq<char>)
    requires
        is_element_start(pattern),
    ensures
        holds("\">"@, pattern, 0),
{
    let text = "\">"@;
    reveal_strlit("\">");
    reveal_strlit("<time");
    reveal_strlit("<li>");
    reveal_with_fuel(scan, 42);
    reveal_with_fuel(start_from, 6);
    if pattern == "<time"@ {
        assert(scan(text, pattern, 0) == Some(0nat));
        lemma_scanned(text, pattern, 0);
    } else {
        assert(scan(text, pattern, 0) == Some(0nat));
        lemma_scanned(text, pattern, 0);
    }
}

proof fn lemma_link_close(pattern: Seq<char>)
    requires
        is_element_start(pattern),
    ensures
        holds("</a></li>"@, pattern, 0),
{
    let text = "</a></li>"@;
    reveal_strlit("</a></li>");
    reveal_strlit("<time");
    reveal_strlit("<li>");
    reveal_with_fuel(scan, 42);
    reveal_with_fuel(start_from, 6);
    if pattern == "<time"@ {
        assert(scan(text, pattern, 0) == Some(0nat));
        lemma_scanned(text, pattern, 0);
    } else {
        assert(scan(text, pattern, 0) == Some(0nat));
        lemma_scanned(text, pattern, 0);
    }
}

proof fn lemma_header_open(pattern: Seq<char>)
    requires
        is_element_start(pattern),
    ensures
        holds("<header><a href=\""@, pattern, 0),
{
    let text = "<header><a href=\""@;
    reveal_strlit("<header><a href=\"");
    reveal_strlit("<time");
    reveal_strlit("<li>");
    reveal_with_fuel(scan, 42);
    reveal_with_fuel(start_from, 6);
    if pattern == "<time"@ {
        assert(scan(text, pattern, 0) == Some(0nat));
        lemma_scanned(text, pattern, 0);
    } else {
        assert(scan(text, pattern, 0) == Some(0nat));
        lemma_scanned(text, pattern, 0);
    }
}

proof fn lemma_header_menu(pattern: Seq<char>)
    requires
        is_element_start(pattern),
    ensures
        holds("</a><nav><ul>"@, pattern, 0),
{
    let text = "</a><nav><ul>"@;
    reveal_strlit("</a><nav><ul>");
    reveal_strlit("<time");
    reveal_strlit("<li>");
    reveal_with_fuel(scan, 42);
    reveal_with_fuel(start_from, 6);
    if pattern == "<time"@ {
        assert(scan(text, pattern, 0) == Some(0nat));
        lemma_scanned(text, pattern, 0);
    } else {
        assert(scan(text, pattern, 0) == Some(0nat));
        lemma_scanned(text, pattern, 0);
    }
}

proof fn lemma_header_close(pattern: Seq<char>)
    requires
        is_element_start(pattern),
    ensures
        holds("</ul></nav></header>"@, pattern, 0),
{
    let text = "</ul></nav></header>"@;
    reveal_strlit("</ul></nav></header>");
    reveal_strlit("<time");
    reveal_strlit("<li>");
    reveal_with_fuel(scan, 42);
    reveal_with_fuel(start_from, 6);
    if pattern == "<time"@ {
        assert(scan(text, pattern, 0) == Some(0nat));
        lemma_scanned(text, pattern, 0);
    } else {
        assert(scan(text, pattern, 0) == Some(0nat));
        lemma_scanned(text, pattern, 0);
    }
}

proof fn lemma_footer_open(pattern: Seq<char>)
    requires
        is_element_start(pattern),
    ensures
        holds("<footer><p>&copy"@, pattern, 0),
{
    let text = "<footer><p>&copy"@;
    reveal_strlit("<footer><p>&copy");
    reveal_strlit("<time");
    reveal_strlit("<li>");
    reveal_with_fuel(scan, 42);
    reveal_with_fuel(start_from, 6);
    if pattern == "<time"@ {
        assert(scan(text, pattern, 0) == Some(0nat));
        lemma_scanned(text, pattern, 0);
    } else {
        assert(scan(text, pattern, 0) == Some(0nat));
        lemma_scanned(text, pattern, 0);
    }
}

proof fn lemma_footer_link(pattern: Seq<char>)
    requires
        is_element_start(pattern),
    ensures
        holds("&nbsp;<a href=\""@, pattern, 0),
{
    let text = "&nbsp;<a href=\""@;
    reveal_strlit("&nbsp;<a href=\"");
    reveal_strlit("<time");
    reveal_strlit("<li>");
    reveal_with_fuel(scan, 42);
    reveal_with_fuel(start_from, 6);
    if pattern == "<time"@ {
        assert(scan(text, pattern, 0) == Some(0nat));
        lemma_scanned(text, pattern, 0);
    } else {
        assert(scan(text, pattern, 0) == Some(0nat));
        lemma_scanned(text, pattern, 0);
    }
}

proof fn lemma_footer_close(pattern: Seq<char>)
    requires
        is_element_start(pattern),
    ensures
        holds("</a></p></footer>"@, pattern, 0),
{
    let text = "</a></p></footer>"@;
    reveal_strlit("</a></p></footer>");
    reveal_strlit("<time");
    reveal_strlit("<li>");
    reveal_with_fuel(scan, 42);
    reveal_with_fuel(start_from, 6);
    if pattern == "<time"@ {
        assert(scan(text, pattern, 0) == Some(0nat));
        lemma_scanned(text, pattern, 0);
    } else {
        assert(scan(text, pattern, 0) == Some(0nat));
        lemma_scanned(text, pattern, 0);
    }
}

proof fn lemma_head_open(pattern: Seq<char>)
    requires
        is_element_start(pattern),
    ensures
        holds("<!DOCTYPE html><html lang=\"en-us\"><head><meta charset=\"utf-8\"><meta name=\"viewport\" content=\"width=device-width, initial-scale=1\"><meta http-equiv=\"X-UA-Compatible\" content=\"IE=edge\"><meta name=\"description\" content=\""@, pattern, 0),
{
    let text = "<!DOCTYPE html><html lang=\"en-us\"><head><meta charset=\"utf-8\"><meta name=\"viewport\" content=\"width=device-width, initial-scale=1\"><meta http-equiv=\"X-UA-Compatible\" content=\"IE=edge\"><meta name=\"description\" content=\""@;
    reveal_strlit("<!DOCTYPE html><html lang=\"en-us\"><head><meta charset=\"utf-8\"><meta name=\"viewport\" content=\"width=device-width, initial-scale=1\"><meta http-equiv=\"X-UA-Compatible\" content=\"IE=edge\"><meta name=\"description\" content=\"");
    reveal_strlit("<time");
    reveal_strlit("<li>");
    reveal_with_fuel(scan, 42);
    reveal_with_fuel(start_from, 6);
    if pattern == "<time"@ {
        assert(scan(text, pattern, 200) == Some(0nat));
        assert(scan(text, pattern, 160) == Some(0nat));
        assert(scan(text, pattern, 120) == Some(0nat));
        assert(scan(text, pattern, 80) == Some(0nat));
        assert(scan(text, pattern, 40) == Some(0nat));
        assert(scan(text, pattern, 0) == Some(0nat));
        lemma_scanned(text, pattern, 0);
    } else {
        assert(scan(text, pattern, 200) == Some(0nat));
        assert(scan(text, pattern, 160) == Some(0nat));
        assert(scan(text, pattern, 120) == Some(0nat));
        assert(scan(text, pattern, 80) == Some(0nat));
        assert(scan(text, pattern, 40) == Some(0nat));
        assert(scan(text, pattern, 0) == Some(0nat));
        lemma_scanned(text, pattern, 0);
    }
}

proof fn lemma_head_author(pattern: Seq<char>)
    requires
        is_element_start(pattern),
    ensures
        holds("\"><meta name=\"author\" content=\""@, pattern, 0),
{
    let text = "\"><meta name=\"author\" content=\""@;
    reveal_strlit("\"><meta name=\"author\" content=\"");
    reveal_strlit("<time");
    reveal_strlit("<li>");
    reveal_with_fuel(scan, 42);
    reveal_with_fuel(start_from, 6);
    if pattern == "<time"@ {
        assert(scan(text, pattern, 0) == Some(0nat));
        lemma_scanned(text, pattern, 0);
    } else {
        assert(scan(text, pattern, 0) == Some(0nat));
        lemma_scanned(text, pattern, 0);
    }
}

proof fn lemma_head_title(pattern: Seq<char>)
    requires
        is_element_start(pattern),
    ensures
        holds("\"><title>"@, pattern, 0),
{
    let text = "\"><title>"@;
    reveal_strlit("\"><title>");
    reveal_strlit("<time");
    reveal_strlit("<li>");
    reveal_with_fuel(scan, 42);
    reveal_with_fuel(start_from, 6);
    if pattern == "<time"@ {
        assert(scan(text, pattern, 0) == Some(0nat));
        lemma_scanned(text, pattern, 0);
    } else {
        assert(scan(text, pattern, 0) == Some(0nat));
        lemma_scanned(text, pattern, 0);
    }
}

proof fn lemma_head_close(pattern: Seq<char>)
    requires
        is_element_start(pattern),
    ensures
        holds("</title><link rel=\"stylesheet\" href=\"css/style.css\"></head><body>"@, pattern, 0),
{
    let text = "</title><link rel=\"stylesheet\" href=\"css/style.css\"></head><body>"@;
    reveal_strlit("</title><link rel=\"stylesheet\" href=\"css/style.css\"></head><body>");
    reveal_strlit("<time");
    reveal_strlit("<li>");
    reveal_with_fuel(scan, 42);
    reveal_with_fuel(start_from, 6);
    if pattern == "<time"@ {
        assert(scan(text, pattern, 40) == Some(0nat));
        assert(scan(text, pattern, 0) == Some(0nat));
        lemma_scanned(text, pattern, 0);
    } else {
        assert(scan(text, pattern, 40) == Some(0nat));
        assert(scan(text, pattern, 0) == Some(0nat));
        lemma_scanned(text, pattern, 0);
    }
}

proof fn lemma_main_open(pattern: Seq<char>)
    requires
        is_element_start(pattern),
    ensures
        holds("<main>"@, pattern, 0),
{
    let text = "<main>"@;
    reveal_strlit("<main>");
    reveal_strlit("<time");
    reveal_strlit("<li>");
    reveal_with_fuel(scan, 42);
    reveal_with_fuel(start_from, 6);
    if pattern == "<time"@ {
        assert(scan(text, pattern, 0) == Some(0nat));
        lemma_scanned(text, pattern, 0);
    } else {
        assert(scan(text, pattern, 0) == Some(0nat));
        lemma_scanned(text, pattern, 0);
    }
}

proof fn lemma_main_close(pattern: Seq<char>)
    requires
        is_element_start(pattern),
    ensures
        holds("</main>"@, pattern, 0),
{
    let text = "</main>"@;
    reveal_strlit("</main>");
    reveal_strlit("<time");
    reveal_strlit("<li>");
    reveal_with_fuel(scan, 42);
    reveal_with_fuel(start_from, 6);
    if pattern == "<time"@ {
        assert(scan(text, pattern, 0) == Some(0nat));
        lemma_scanned(text, pattern, 0);
    } else {
        assert(scan(text, pattern, 0) == Some(0nat));
        lemma_scanned(text, pattern, 0);
    }
}

proof fn lemma_body_close(pattern: Seq<char>)
    requires
        is_element_start(pattern),
    ensures
        holds("</body></html>"@, pattern, 0),
{
    let text = "</body></html>"@;
    reveal_strlit("</body></html>");
    reveal_strlit("<time");
    reveal_strlit("<li>");
    reveal_with_fuel(scan, 42);
    reveal_with_fuel(start_from, 6);
    if pattern == "<time"@ {
        assert(scan(text, pattern, 0) == Some(0nat));
        lemma_scanned(text, pattern, 0);
    } else {
        assert(scan(text, pattern, 0) == Some(0nat));
        lemma_scanned(text, pattern, 0);
    }
}

proof fn lemma_article_open(pattern: Seq<char>)
    requires
        is_element_start(pattern),
    ensures
        holds("<article><h1>"@, pattern, 0),
{
    let text = "<article><h1>"@;
    reveal_strlit("<article><h1>");
    reveal_strlit("<time");
    reveal_strlit("<li>");
    reveal_with_fuel(scan, 42);
    reveal_with_fuel(start_from, 6);
    if pattern == "<time"@ {
        assert(scan(text, pattern, 0) == Some(0nat));
        lemma_scanned(text, pattern, 0);
    } else {
        assert(scan(text, pattern, 0) == Some(0nat));
        lemma_scanned(text, pattern, 0);
    }
}

proof fn lemma_heading_close(pattern: Seq<char>)
    requires
        is_element_start(pattern),
    ensures
        holds("</h1>"@, pattern, 0),
{
    let text = "</h1>"@;
    reveal_strlit("</h1>");
    reveal_strlit("<time");
    reveal_strlit("<li>");
    reveal_with_fuel(scan, 42);
    reveal_with_fuel(start_from, 6);
    if pattern == "<time"@ {
        assert(scan(text, pattern, 0) == Some(0nat));
        lemma_scanned(text, pattern, 0);
    } else {
        assert(scan(text, pattern, 0) == Some(0nat));
        lemma_scanned(text, pattern, 0);
    }
}

proof fn lemma_division_open(pattern: Seq<char>)
    requires
        is_element_start(pattern),
    ensures
        holds("<div>"@, pattern, 0),
{
    let text = "<div>"@;
    reveal_strlit("<div>");
    reveal_strlit("<time");
    reveal_strlit("<li>");
    reveal_with_fuel(scan, 42);
    reveal_with_fuel(start_from, 6);
    if pattern == "<time"@ {
        assert(scan(text, pattern, 0) == Some(0nat));
        lemma_scanned(text, pattern, 0);
    } else {
        assert(scan(text, pattern, 0) == Some(0nat));
        lemma_scanned(text, pattern, 0);
    }
}

proof fn lemma_tags_open(pattern: Seq<char>)
    requires
        is_element_start(pattern),
    ensures
        holds("</div><div><ul id=\"tags\">"@, pattern, 0),
{
    let text = "</div><div><ul id=\"tags\">"@;
    reveal_strlit("</div><div><ul id=\"tags\">");
    reveal_strlit("<time");
    reveal_strlit("<li>");
    reveal_with_fuel(scan, 42);
    reveal_with_fuel(start_from, 6);
    if pattern == "<time"@ {
        assert(scan(text, pattern, 0) == Some(0nat));
        lemma_scanned(text, pattern, 0);
    } else {
        assert(scan(text, pattern, 0) == Some(0nat));
        lemma_scanned(text, pattern, 0);
    }
}

proof fn lemma_article_close(pattern: Seq<char>)
    requires
        is_element_start(pattern),
    ensures
        holds("</ul></div></article>"@, pattern, 0),
{
    let text = "</ul></div></article>"@;
    reveal_strlit("</ul></div></article>");
    reveal_strlit("<time");
    reveal_strlit("<li>");
    reveal_with_fuel(scan, 42);
    reveal_with_fuel(start_from, 6);
    if pattern == "<time"@ {
        assert(scan(text, pattern, 0) == Some(0nat));
        lemma_scanned(text, pattern, 0);
    } else {
        assert(scan(text, pattern, 0) == Some(0nat));
        lemma_scanned(text, pattern, 0);
    }
}

proof fn lemma_entry_open(pattern: Seq<char>)
    requires
        is_element_start(pattern),
    ensures
        holds("<li><time>"@, pattern, times(pattern) + items(pattern)),
{
    let text = "<li><time>"@;
    reveal_strlit("<li><time>");
    reveal_strlit("<time");
    reveal_strlit("<li>");
    reveal_with_fuel(scan, 42);
    reveal_with_fuel(start_from, 6);
    if pattern == "<time"@ {
        assert(scan(text, pattern, 0) == Some(1nat));
        lemma_scanned(text, pattern, 1);
    } else {
        assert(scan(text, pattern, 0) == Some(1nat));
        lemma_scanned(text, pattern, 1);
    }
}

proof fn lemma_entry_link(pattern: Seq<char>)
    requires
        is_element_start(pattern),
    ensures
        holds("</time>&nbsp;<a href=\""@, pattern, 0),
{
    let text = "</time>&nbsp;<a href=\""@;
    reveal_strlit("</time>&nbsp;<a href=\"");
    reveal_strlit("<time");
    reveal_strlit("<li>");
    reveal_with_fuel(scan, 42);
    reveal_with_fuel(start_from, 6);
    if pattern == "<time"@ {
        assert(scan(text, pattern, 0) == Some(0nat));
        lemma_scanned(text, pattern, 0);
    } else {
        assert(scan(text, pattern, 0) == Some(0nat));
        lemma_scanned(text, pattern, 0);
    }
}

proof fn lemma_year_open(pattern: Seq<char>)
    requires
        is_element_start(pattern),
    ensures
        holds("<li><h2>"@, pattern, items(pattern)),
{
    let text = "<li><h2>"@;
    reveal_strlit("<li><h2>");
    reveal_strlit("<time");
    reveal_strlit("<li>");
    reveal_with_fuel(scan, 42);
    reveal_with_fuel(start_from, 6);
    if pattern == "<time"@ {
        assert(scan(text, pattern, 0) == Some(0nat));
        lemma_scanned(text, pattern, 0);
    } else {
        assert(scan(text, pattern, 0) == Some(1nat));
        lemma_scanned(text, pattern, 1);
    }
}

proof fn lemma_year_heading_close(pattern: Seq<char>)
    requires
        is_element_start(pattern),
    ensures
        holds("</h2>"@, pattern, 0),
{
    let text = "</h2>"@;
    reveal_strlit("</h2>");
    reveal_strlit("<time");
    reveal_strlit("<li>");
    reveal_with_fuel(scan, 42);
    reveal_with_fuel(start_from, 6);
    if pattern == "<time"@ {
        assert(scan(text, pattern, 0) == Some(0nat));
        lemma_scanned(text, pattern, 0);
    } else {
        assert(scan(text, pattern, 0) == Some(0nat));
        lemma_scanned(text, pattern, 0);
    }
}

proof fn lemma_year_close(pattern: Seq<char>)
    requires
        is_element_start(pattern),
    ensures
        holds("</li>"@, pattern, 0),
{
    let text = "</li>"@;
    reveal_strlit("</li>");
    reveal_strlit("<time");
    reveal_strlit("<li>");
    reveal_with_fuel(scan, 42);
    reveal_with_fuel(start_from, 6);
    if pattern == "<time"@ {
        assert(scan(text, pattern, 0) == Some(0nat));
        lemma_scanned(text, pattern, 0);
    } else {
        assert(scan(text, pattern, 0) == Some(0nat));
        lemma_scanned(text, pattern, 0);
    }
}

proof fn lemma_archive_open(pattern: Seq<char>)
    requires
        is_element_start(pattern),
    ensures
        holds("<h1>"@, pattern, 0),
{
    let text = "<h1>"@;
    reveal_strlit("<h1>");
    reveal_strlit("<time");
    reveal_strlit("<li>");
    reveal_with_fuel(scan, 42);
    reveal_with_fuel(start_from, 6);
    if pattern == "<time"@ {
        assert(scan(text, pattern, 0) == Some(0nat));
        lemma_scanned(text, pattern, 0);
    } else {
        assert(scan(text, pattern, 0) == Some(0nat));
        lemma_scanned(text, pattern, 0);
    }
}

proof fn lemma_archive_list(pattern: Seq<char>)
    requires
        is_element_start(pattern),
    ensures
        holds("</h1><div><ul id=\"articles\">"@, pattern, 0),
{
    let text = "</h1><div><ul id=\"articles\">"@;
    reveal_strlit("</h1><div><ul id=\"articles\">");
    reveal_strlit("<time");
    reveal_strlit("<li>");
    reveal_with_fuel(scan, 42);
    reveal_with_fuel(start_from, 6);
    if pattern == "<time"@ {
        assert(scan(text, pattern, 0) == Some(0nat));
        lemma_scanned(text, pattern, 0);
    } else {
        assert(scan(text, pattern, 0) == Some(0nat));
        lemma_scanned(text, pattern, 0);
    }
}

proof fn lemma_archive_close(pattern: Seq<char>)
    requires
        is_element_start(pattern),
    ensures
        holds("</ul></div>"@, pattern, 0),
{
    let text = "</ul></div>"@;
    reveal_strlit("</ul></div>");
    reveal_strlit("<time");
    reveal_strlit("<li>");
    reveal_with_fuel(scan, 42);
    reveal_with_fuel(start_from, 6);
    if pattern == "<time"@ {
        assert(scan(text, pattern, 0) == Some(0nat));
        lemma_scanned(text, pattern, 0);
    } else {
        assert(scan(text, pattern, 0) == Some(0nat));
        lemma_scanned(text, pattern, 0);
    }
}

proof fn lemma_taxonomy_list(pattern: Seq<char>)
    requires
        is_element_start(pattern),
    ensures
        holds("</h1><div><ul id=\"tags\">"@, pattern, 0),
{
    let text = "</h1><div><ul id=\"tags\">"@;
    reveal_strlit("</h1><div><ul id=\"tags\">");
    reveal_strlit("<time");
    reveal_strlit("<li>");
    reveal_with_fuel(scan, 42);
    reveal_with_fuel(start_from, 6);
    if pattern == "<time"@ {
        assert(scan(text, pattern, 0) == Some(0nat));
        lemma_scanned(text, pattern, 0);
    } else {
        assert(scan(text, pattern, 0) == Some(0nat));
        lemma_scanned(text, pattern, 0);
    }
}

proof fn lemma_escaped(text: Seq<char>, pattern: Seq<char>)
    requires
        is_element_start(pattern),
    ensures
        holds(escaped(text), pattern, 0),
{
    lemma_patterns_differ();
    lemma_escaped_text_holds_no_markup(text);
    lemma_without_first_char(escaped(text), pattern);
}

proof fn lemma_nothing(pattern: Seq<char>)
    requires
        is_element_start(pattern),
    ensures
        holds(Seq::<char>::empty(), pattern, 0),
{
    lemma_patterns_differ();
    lemma_without_first_char(Seq::<char>::empty(), pattern);
}

proof fn lemma_link_item(link: LinkView, pattern: Seq<char>)
    requires
        is_element_start(pattern),
    ensures
        holds(link_item_markup(link), pattern, items(pattern)),
{
    let n = items(pattern);
    let a = "<li><a href=\""@;
    let b = a + escaped(link.url);
    let c = b + "\">"@;
    let d = c + escaped(link.title);
    lemma_link_open(pattern);
    lemma_escaped(link.url, pattern);
    lemma_joined(a, escaped(link.url), pattern, n, 0);
    lemma_attribute_end(pattern);
    lemma_joined(b, "\">"@, pattern, n, 0);
    lemma_escaped(link.title, pattern);
    lemma_joined(c, escaped(link.title), pattern, n, 0);
    lemma_link_close(pattern);
    lemma_joined(d, "</a></li>"@, pattern, n, 0);
}

proof fn lemma_link_items(links: Seq<LinkView>, pattern: Seq<char>)
    requires
        is_element_start(pattern),
    ensures
        holds(link_items_markup(links), pattern, items_in(pattern, links.len())),
    decreases links.len(),
{
    if links.len() == 0 {
        lemma_nothing(pattern);
    } else {
        lemma_link_items(links.drop_last(), pattern);
        lemma_link_item(links.last(), pattern);
        lemma_joined(
            link_items_markup(links.drop_last()),
            link_item_markup(links.last()),
            pattern,
            items_in(pattern, links.drop_last().len()),
            items(pattern),
        );
    }
}

proof fn lemma_header(site: WebsiteView, pattern: Seq<char>)
    requires
        is_element_start(pattern),
    ensures
        holds(header_markup(site), pattern, items_in(pattern, site.menu_items.len())),
{
    let n = items_in(pattern, site.menu_items.len());
    let a = "<header><a href=\""@;
    let b = a + escaped(site.base_url);
    let c = b + "\">"@;
    let d = c + escaped(site.title);
    let e = d + "</a><nav><ul>"@;
    let f = e + link_items_markup(site.menu_items);
    lemma_header_open(pattern);
    lemma_escaped(site.base_url, pattern);
    lemma_joined(a, escaped(site.base_url), pattern, 0, 0);
    lemma_attribute_end(pattern);
    lemma_joined(b, "\">"@, pattern, 0, 0);
    lemma_escaped(site.title, pattern);
    lemma_joined(c, escaped(site.title), pattern, 0, 0);
    lemma_header_menu(pattern);
    lemma_joined(d, "</a><nav><ul>"@, pattern, 0, 0);
    lemma_link_items(site.menu_items, pattern);
    lemma_joined(e, link_items_markup(site.menu_items), pattern, 0, n);
    lemma_header_close(pattern);
    lemma_joined(f, "</ul></nav></header>"@, pattern, n, 0);
}

proof fn lemma_footer(site: WebsiteView, pattern: Seq<char>)
    requires
        is_element_start(pattern),
    ensures
        holds(footer_markup(site), pattern, 0),
{
    let a = "<footer><p>&copy"@;
    let b = a + escaped(site.year);
    let c = b + "&nbsp;<a href=\""@;
    let d = c + escaped(site.base_url);
    let e = d + "\">"@;
    let f = e + escaped(site.title);
    lemma_footer_open(pattern);
    lemma_escaped(site.year, pattern);
    lemma_joined(a, escaped(site.year), pattern, 0, 0);
    lemma_footer_link(pattern);
    lemma_joined(b, "&nbsp;<a href=\""@, pattern, 0, 0);
    lemma_escaped(site.base_url, pattern);
    lemma_joined(c, escaped(site.base_url), pattern, 0, 0);
    lemma_attribute_end(pattern);
    lemma_joined(d, "\">"@, pattern, 0, 0);
    lemma_escaped(site.title, pattern);
    lemma_joined(e, escaped(site.title), pattern, 0, 0);
    lemma_footer_close(pattern);
    lemma_joined(f, "</a></p></footer>"@, pattern, 0, 0);
}

/// What stands in a document before its main content.
pub open spec fn document_opening(site: WebsiteView) -> Seq<char> {
    "<!DOCTYPE html><html lang=\"en-us\"><head><meta charset=\"utf-8\"><meta name=\"viewport\" content=\"width=device-width, initial-scale=1\"><meta http-equiv=\"X-UA-Compatible\" content=\"IE=edge\"><meta name=\"description\" content=\""@
        + escaped(site.description) + "\"><meta name=\"author\" content=\""@ + escaped(
        site.author,
    ) + "\"><title>"@ + escaped(site.title)
        + "</title><link rel=\"stylesheet\" href=\"css/style.css\"></head><body>"@
        + header_markup(site) + "<main>"@
}

/// What stands in a document behind its main content.
pub open spec fn document_closing(site: WebsiteView) -> Seq<char> {
    "</main>"@ + footer_markup(site) + "</body></html>"@
}

/// A document is its opening, its main content and its closing.
pub proof fn lemma_document_parts(site: WebsiteView, main_content: Seq<char>)
    ensures
        document_markup(site, main_content) == document_opening(site) + main_content
            + document_closing(site),
{
    assert(document_markup(site, main_content) =~= document_opening(site) + main_content
        + document_closing(site));
}

proof fn lemma_document_opening(site: WebsiteView, pattern: Seq<char>)
    requires
        is_element_start(pattern),
    ensures
        holds(document_opening(site), pattern, items_in(pattern, site.menu_items.len())),
{
    let n = items_in(pattern, site.menu_items.len());
    let a = "<!DOCTYPE html><html lang=\"en-us\"><head><meta charset=\"utf-8\"><meta name=\"viewport\" content=\"width=device-width, initial-scale=1\"><meta http-equiv=\"X-UA-Compatible\" content=\"IE=edge\"><meta name=\"description\" content=\""@;
    let b = a + escaped(site.description);
    let c = b + "\"><meta name=\"author\" content=\""@;
    let d = c + escaped(site.author);
    let e = d + "\"><title>"@;
    let f = e + escaped(site.title);
    let g = f + "</title><link rel=\"stylesheet\" href=\"css/style.css\"></head><body>"@;
    let h = g + header_markup(site);
    lemma_head_open(pattern);
    lemma_escaped(site.description, pattern);
    lemma_joined(a, escaped(site.description), pattern, 0, 0);
    lemma_head_author(pattern);
    lemma_joined(b, "\"><meta name=\"author\" content=\""@, pattern, 0, 0);
    lemma_escaped(site.author, pattern);
    lemma_joined(c, escaped(site.author), pattern, 0, 0);
    lemma_head_title(pattern);
    lemma_joined(d, "\"><title>"@, pattern, 0, 0);
    lemma_escaped(site.title, pattern);
    lemma_joined(e, escaped(site.title), pattern, 0, 0);
    lemma_head_close(pattern);
    lemma_joined(
        f,
        "</title><link rel=\"stylesheet\" href=\"css/style.css\"></head><body>"@,
        pattern,
        0,
        0,
    );
    lemma_header(site, pattern);
    lemma_joined(g, header_markup(site), pattern, 0, n);
    lemma_main_open(pattern);
    lemma_joined(h, "<main>"@, pattern, n, 0);
}

proof fn lemma_document_closing(site: WebsiteView, pattern: Seq<char>)
    requires
        is_element_start(pattern),
    ensures
        holds(document_closing(site), pattern, 0),
        document_closing(site).len() > 0,
        document_closing(site)[0] == '<',
{
    let a = "</main>"@;
    let b = a + footer_markup(site);
    lemma_main_close(pattern);
    lemma_footer(site, pattern);
    lemma_joined(a, footer_markup(site), pattern, 0, 0);
    lemma_body_close(pattern);
    lemma_joined(b, "</body></html>"@, pattern, 0, 0);
    reveal_strlit("</main>");
}

/// A document around settled content holds what its menu and its content
/// hold.
proof fn lemma_document(site: WebsiteView, main_content: Seq<char>, pattern: Seq<char>, n: nat)
    requires
        is_element_start(pattern),
        holds(main_content, pattern, n),
    ensures
        holds(
            document_markup(site, main_content),
            pattern,
            items_in(pattern, site.menu_items.len()) + n,
        ),
{
    let m = items_in(pattern, site.menu_items.len());
    lemma_document_parts(site, main_content);
    lemma_document_opening(site, pattern);
    lemma_document_closing(site, pattern);
    lemma_joined(document_opening(site), main_content, pattern, m, n);
    lemma_joined(document_opening(site) + main_content, document_closing(site), pattern, m + n, 0);
}

/// The list of a taxonomy holds one entry for each link, and the document
/// around it one more for each entry of the menu.
pub proof fn lemma_taxonomy_list_entries(
    site: WebsiteView,
    title: Seq<char>,
    links: Seq<LinkView>,
)
    ensures
        count(taxonomy_markup(title, links), "<li>"@) == links.len(),
        count(taxonomy_list_markup(site, title, links), "<li>"@) == site.menu_items.len()
            + links.len(),
{
    let pattern = "<li>"@;
    let n = links.len();
    let a = "<article><h1>"@;
    let b = a + escaped(title);
    let c = b + "</h1><div><ul id=\"tags\">"@;
    let d = c + link_items_markup(links);
    lemma_article_open(pattern);
    lemma_escaped(title, pattern);
    lemma_joined(a, escaped(title), pattern, 0, 0);
    lemma_taxonomy_list(pattern);
    lemma_joined(b, "</h1><div><ul id=\"tags\">"@, pattern, 0, 0);
    lemma_link_items(links, pattern);
    lemma_joined(c, link_items_markup(links), pattern, 0, n);
    lemma_article_close(pattern);
    lemma_joined(d, "</ul></div></article>"@, pattern, n, 0);
    lemma_document(site, taxonomy_markup(title, links), pattern, n);
}

proof fn lemma_archive_item(page: PageView, pattern: Seq<char>)
    requires
        is_element_start(pattern),
    ensures
        holds(archive_item_markup(page), pattern, 1),
{
    lemma_patterns_differ();
    let date = escaped(crate::date::date_text(page.config.date->0));
    let a = "<li><time>"@;
    let b = a + date;
    let c = b + "</time>&nbsp;<a href=\""@;
    let d = c + escaped(page.config.path);
    let e = d + "\">"@;
    let f = e + escaped(page.config.title);
    lemma_entry_open(pattern);
    lemma_escaped(crate::date::date_text(page.config.date->0), pattern);
    lemma_joined(a, date, pattern, 1, 0);
    lemma_entry_link(pattern);
    lemma_joined(b, "</time>&nbsp;<a href=\""@, pattern, 1, 0);
    lemma_escaped(page.config.path, pattern);
    lemma_joined(c, escaped(page.config.path), pattern, 1, 0);
    lemma_attribute_end(pattern);
    lemma_joined(d, "\">"@, pattern, 1, 0);
    lemma_escaped(page.config.title, pattern);
    lemma_joined(e, escaped(page.config.title), pattern, 1, 0);
    lemma_link_close(pattern);
    lemma_joined(f, "</a></li>"@, pattern, 1, 0);
}

proof fn lemma_archive_items(pages: Seq<PageView>, pattern: Seq<char>)
    requires
        is_element_start(pattern),
    ensures
        holds(archive_items_markup(pages), pattern, pages.len()),
    decreases pages.len(),
{
    if pages.len() == 0 {
        lemma_nothing(pattern);
    } else {
        lemma_archive_items(pages.drop_last(), pattern);
        lemma_archive_item(pages.last(), pattern);
        lemma_joined(
            archive_items_markup(pages.drop_last()),
            archive_item_markup(pages.last()),
            pattern,
            pages.drop_last().len(),
            1,
        );
    }
}

proof fn lemma_archive_year(year: Seq<char>, pages: Seq<PageView>, pattern: Seq<char>)
    requires
        is_element_start(pattern),
    ensures
        holds(archive_year_markup(year, pages), pattern, items(pattern) + pages.len()),
{
    let k = items(pattern);
    let a = "<li><h2>"@;
    let b = a + escaped(year);
    let c = b + "</h2>"@;
    let d = c + archive_items_markup(pages);
    lemma_year_open(pattern);
    lemma_escaped(year, pattern);
    lemma_joined(a, escaped(year), pattern, k, 0);
    lemma_year_heading_close(pattern);
    lemma_joined(b, "</h2>"@, pattern, k, 0);
    lemma_archive_items(pages, pattern);
    lemma_joined(c, archive_items_markup(pages), pattern, k, pages.len());
    lemma_year_close(pattern);
    lemma_joined(d, "</li>"@, pattern, k + pages.len(), 0);
}

proof fn lemma_archive_years(years: Seq<(Seq<char>, Seq<PageView>)>, pattern: Seq<char>)
    requires
        is_element_start(pattern),
    ensures
        holds(
            archive_years_markup(years),
            pattern,
            items_in(pattern, years.len()) + listed_pages(years),
        ),
    decreases years.len(),
{
    if years.len() == 0 {
        lemma_nothing(pattern);
    } else {
        lemma_archive_years(years.drop_last(), pattern);
        lemma_archive_year(years.last().0, years.last().1, pattern);
        lemma_joined(
            archive_years_markup(years.drop_last()),
            archive_year_markup(years.last().0, years.last().1),
            pattern,
            items_in(pattern, years.drop_last().len()) + listed_pages(years.drop_last()),
            items(pattern) + years.last().1.len(),
        );
    }
}

/// An archive holds one date line for each page that it lists, and one list
/// entry for each page, for each year and for each entry of the menu.
pub proof fn lemma_archive_entries(
    site: WebsiteView,
    title: Seq<char>,
    years: Seq<(Seq<char>, Seq<PageView>)>,
)
    ensures
        count(archive_markup(site, title, years), "<time"@) == listed_pages(years),
        count(archive_markup(site, title, years), "<li>"@) == site.menu_items.len() + years.len()
            + listed_pages(years),
{
    lemma_patterns_differ();
    lemma_archive_content(title, years, "<time"@);
    lemma_archive_content(title, years, "<li>"@);
    let content = "<h1>"@ + escaped(title) + "</h1><div><ul id=\"articles\">"@
        + archive_years_markup(years) + "</ul></div>"@;
    lemma_document(site, content, "<time"@, listed_pages(years));
    lemma_document(site, content, "<li>"@, years.len() + listed_pages(years));
}

proof fn lemma_archive_content(
    title: Seq<char>,
    years: Seq<(Seq<char>, Seq<PageView>)>,
    pattern: Seq<char>,
)
    requires
        is_element_start(pattern),
    ensures
        holds(
            "<h1>"@ + escaped(title) + "</h1><div><ul id=\"articles\">"@ + archive_years_markup(
                years,
            ) + "</ul></div>"@,
            pattern,
            items_in(pattern, years.len()) + listed_pages(years),
        ),
{
    let n = items_in(pattern, years.len()) + listed_pages(years);
    let a = "<h1>"@;
    let b = a + escaped(title);
    let c = b + "</h1><div><ul id=\"articles\">"@;
    let d = c + archive_years_markup(years);
    lemma_archive_open(pattern);
    lemma_escaped(title, pattern);
    lemma_joined(a, escaped(title), pattern, 0, 0);
    lemma_archive_list(pattern);
    lemma_joined(b, "</h1><div><ul id=\"articles\">"@, pattern, 0, 0);
    lemma_archive_years(years, pattern);
    lemma_joined(c, archive_years_markup(years), pattern, 0, n);
    lemma_archive_close(pattern);
    lemma_joined(d, "</ul></div>"@, pattern, n, 0);
}

/// The document of an undated page holds no date line, unless the body of
/// the page brings one: where the rendered body does not hold `<time`, the
/// document does not.
pub proof fn lemma_undated_page_shows_no_date(
    site: WebsiteView,
    page: PageView,
    content: Seq<char>,
)
    requires
        page.config.date is None,
        count(content, "<time"@) == 0,
    ensures
        count(single_page_markup(site, page, content), "<time"@) == 0,
{
    let pattern = "<time"@;
    lemma_patterns_differ();
    reveal_strlit("<time");
    // what stands before the body
    let a = "<article><h1>"@;
    let b = a + escaped(page.config.title);
    let c = b + "</h1>"@;
    let d = c + date_markup(page.config.date);
    let e = d + "<div>"@;
    lemma_article_open(pattern);
    lemma_escaped(page.config.title, pattern);
    lemma_joined(a, escaped(page.config.title), pattern, 0, 0);
    lemma_heading_close(pattern);
    lemma_joined(b, "</h1>"@, pattern, 0, 0);
    lemma_nothing(pattern);
    lemma_joined(c, date_markup(page.config.date), pattern, 0, 0);
    lemma_division_open(pattern);
    lemma_joined(d, "<div>"@, pattern, 0, 0);
    lemma_document_opening(site, pattern);
    lemma_joined(document_opening(site), e, pattern, 0, 0);
    // what stands behind it
    let links = link_items_markup(category_links(site, page));
    let f = "</div><div><ul id=\"tags\">"@;
    let g = f + links;
    let h = g + "</ul></div></article>"@;
    lemma_tags_open(pattern);
    lemma_link_items(category_links(site, page), pattern);
    lemma_joined(f, links, pattern, 0, 0);
    lemma_article_close(pattern);
    lemma_joined(g, "</ul></div></article>"@, pattern, 0, 0);
    lemma_document_closing(site, pattern);
    lemma_joined(h, document_closing(site), pattern, 0, 0);
    reveal_strlit("</div><div><ul id=\"tags\">");
    let before = document_opening(site) + e;
    let behind = h + document_closing(site);
    assert(behind[0] == '<');
    lemma_enclosed(before, content, behind, pattern);
    lemma_document_parts(site, article_markup(site, page, content));
    assert(single_page_markup(site, page, content) =~= before + content + behind);
}

/// The number of pages that carry a date.
pub open spec fn dated_pages(pages: Seq<PageView>) -> nat
    decreases pages.len(),
{
    if pages.len() == 0 {
        0
    } else if pages.last().config.date is Some {
        dated_pages(pages.drop_last()) + 1
    } else {
        dated_pages(pages.drop_last())
    }
}

/// The number of pages under the given years, each page counted once for
/// each of the years that it is listed under.
spec fn members_in(pages: Seq<PageView>, years: Seq<Seq<char>>) -> nat
    decreases years.len(),
{
    if years.len() == 0 {
        0
    } else {
        members_in(pages, years.drop_last()) + members(pages, Grouping::Year, years.last()).len()
    }
}

/// The number of the given years that a page is listed under.
spec fn years_of(page: PageView, years: Seq<Seq<char>>) -> nat
    decreases years.len(),
{
    if years.len() == 0 {
        0
    } else if has_key(page, Grouping::Year, years.last()) {
        years_of(page, years.drop_last()) + 1
    } else {
        years_of(page, years.drop_last())
    }
}

proof fn lemma_members_in_step(pages: Seq<PageView>, years: Seq<Seq<char>>)
    requires
        pages.len() > 0,
    ensures
        members_in(pages, years) == members_in(pages.drop_last(), years) + years_of(
            pages.last(),
            years,
        ),
    decreases years.len(),
{
    if years.len() > 0 {
        lemma_members_in_step(pages, years.drop_last());
    }
}

proof fn lemma_members_in_none(years: Seq<Seq<char>>)
    ensures
        members_in(Seq::<PageView>::empty(), years) == 0,
    decreases years.len(),
{
    if years.len() > 0 {
        lemma_members_in_none(years.drop_last());
    }
}

proof fn lemma_years_of(page: PageView, years: Seq<Seq<char>>)
    requires
        years.no_duplicates(),
    ensures
        page.config.date is None ==> years_of(page, years) == 0,
        page.config.date matches Some(t) ==> years_of(page, years) == if years.contains(
            crate::date::year_text(t),
        ) {
            1nat
        } else {
            0nat
        },
    decreases years.len(),
{
    if years.len() > 0 {
        let earlier = years.drop_last();
        lemma_years_of(page, earlier);
        match page.config.date {
            Some(t) => {
                let own = crate::date::year_text(t);
                let listed = seq![own];
                assert(listed[0] == own);
                assert(has_key(page, Grouping::Year, years.last()) <==> years.last() == own);
                if earlier.contains(own) {
                    let i = choose|i: int| 0 <= i < earlier.len() && earlier[i] == own;
                    assert(years[i] == own);
                    assert(years.contains(own));
                }
                if years.last() == own {
                    assert(years[years.len() - 1] == own);
                    assert(years.contains(own));
                } else if years.contains(own) {
                    let i = choose|i: int| 0 <= i < years.len() && years[i] == own;
                    assert(earlier[i] == own);
                    assert(earlier.contains(own));
                }
            },
            None => {
                assert(crate::index::page_keys(page, Grouping::Year) =~= Seq::<Seq<char>>::empty());
            },
        }
    }
}

proof fn lemma_members_in_all(pages: Seq<PageView>, years: Seq<Seq<char>>)
    requires
        years.no_duplicates(),
        forall|key: Seq<char>| occurs(pages, Grouping::Year, key) ==> years.contains(key),
    ensures
        members_in(pages, years) == dated_pages(pages),
    decreases pages.len(),
{
    if pages.len() == 0 {
        lemma_members_in_none(years);
        assert(pages =~= Seq::<PageView>::empty());
    } else {
        let earlier = pages.drop_last();
        assert forall|key: Seq<char>| occurs(earlier, Grouping::Year, key) implies years.contains(
            key,
        ) by {
            let i = choose|i: int|
                0 <= i < earlier.len() && has_key(#[trigger] earlier[i], Grouping::Year, key);
            assert(has_key(pages[i], Grouping::Year, key));
        }
        lemma_members_in_all(earlier, years);
        lemma_members_in_step(pages, years);
        lemma_years_of(pages.last(), years);
        match pages.last().config.date {
            Some(t) => {
                let own = crate::date::year_text(t);
                let listed = seq![own];
                assert(listed[0] == own);
                assert(has_key(pages[pages.len() - 1], Grouping::Year, own));
                assert(occurs(pages, Grouping::Year, own));
            },
            None => {},
        }
    }
}

proof fn lemma_listed_pages(groups: Seq<(Seq<char>, Seq<PageView>)>, pages: Seq<PageView>)
    requires
        forall|i: int|
            0 <= i < groups.len() ==> (#[trigger] groups[i]).1 == members(
                pages,
                Grouping::Year,
                groups[i].0,
            ),
    ensures
        listed_pages(groups) == members_in(pages, group_keys(groups)),
    decreases groups.len(),
{
    if groups.len() > 0 {
        let earlier = groups.drop_last();
        assert forall|i: int| 0 <= i < earlier.len() implies (#[trigger] earlier[i]).1 == members(
            pages,
            Grouping::Year,
            earlier[i].0,
        ) by {
            assert(earlier[i] == groups[i]);
        }
        lemma_listed_pages(earlier, pages);
        assert(group_keys(groups).drop_last() =~= group_keys(earlier));
        assert(group_keys(groups).last() == groups.last().0);
        assert(groups.last() == groups[groups.len() - 1]);
    }
}

/// The archive of pages lists each dated page once: the index by year holds
/// as many pages as carry a date, and the archive made of it shows as many
/// date lines.
pub proof fn lemma_archive_shows_each_dated_page_once(
    site: WebsiteView,
    title: Seq<char>,
    pages: Seq<PageView>,
)
    ensures
        listed_pages(index_of(pages, Grouping::Year)) == dated_pages(pages),
        count(archive_markup(site, title, index_of(pages, Grouping::Year)), "<time"@)
            == dated_pages(pages),
{
    let groups = index_of(pages, Grouping::Year);
    lemma_index_exists(pages, Grouping::Year);
    lemma_listed_pages(groups, pages);
    lemma_members_in_all(pages, group_keys(groups));
    lemma_archive_entries(site, title, groups);
}

/// The list of the tags of a taxonomy holds one entry for each tag, beside
/// the entries of the menu.
pub proof fn lemma_taxonomy_index_entries(
    site: WebsiteView,
    taxonomy: Taxonomy,
    tags: Seq<Seq<char>>,
)
    ensures
        count(taxonomy_index_file(site, taxonomy, tags).1, "<li>"@) == site.menu_items.len()
            + tags.len(),
{
    lemma_taxonomy_list_entries(
        site,
        taxonomy.title(),
        crate::site::tag_links(site.base_url, taxonomy, tags),
    );
}

} // verus!
