use sitegen::date::Timestamp;
use sitegen::page::{Link, Page, PageConfig, Website};
use sitegen::theme::{archive, category_list, project_list, single_page};

const HEAD: &str = "<!DOCTYPE html><html lang=\"en-us\"><head><meta charset=\"utf-8\"><meta name=\"viewport\" content=\"width=device-width, initial-scale=1\"><meta http-equiv=\"X-UA-Compatible\" content=\"IE=edge\"><meta name=\"description\" content=\"Desc\"><meta name=\"author\" content=\"Me\"><title>Site</title><link rel=\"stylesheet\" href=\"css/style.css\"></head><body><header><a href=\"https://example.org\">Site</a><nav><ul></ul></nav></header><main>";
const FOOT: &str = "</main><footer><p>&copy2022&nbsp;<a href=\"https://example.org\">Site</a></p></footer></body></html>";

fn framed(main: &str) -> String {
    format!("{}{}{}", HEAD, main, FOOT)
}

fn site() -> Website {
    Website {
        base_url: "https://example.org".to_string(),
        title: "Site".to_string(),
        menu_items: Vec::new(),
        description: "Desc".to_string(),
        author: "Me".to_string(),
        year: "2022".to_string(),
    }
}

fn page(title: &str, path: &str, date: Option<(u16, u8, u8)>, categories: &[&str]) -> Page {
    Page {
        html_file_path: path.to_string(),
        config: PageConfig {
            title: title.to_string(),
            path: path.to_string(),
            date: date.map(|(year, month, day)| Timestamp { year, month, day, hour: 10, minute: 0 }),
            categories: categories.iter().map(|c| c.to_string()).collect(),
            projects: Vec::new(),
        },
    }
}

#[test]
fn single_page_wraps_title_date_body_and_tags() {
    let hello = page("Hello", "public/posts/hello.html", Some((2022, 1, 1)), &["rust"]);
    assert_eq!(
        single_page(&site(), &hello, "<p>Body</p>\n".to_string()),
        framed(
            "<article><h1>Hello</h1><time>2022.01.01</time><div><p>Body</p>\n</div><div><ul id=\"tags\"><li><a href=\"https://example.org/categories/rust\">rust</a></li></ul></div></article>"
        )
    );
}

#[test]
fn single_page_omits_the_date_of_an_undated_page() {
    let about = page("About", "public/about.html", None, &[]);
    assert_eq!(
        single_page(&site(), &about, "<p>Me</p>\n".to_string()),
        framed(
            "<article><h1>About</h1><div><p>Me</p>\n</div><div><ul id=\"tags\"></ul></div></article>"
        )
    );
}

#[test]
fn single_page_escapes_texts_but_not_the_body() {
    let odd = page("a < b & \"c\" > d", "public/odd.html", None, &["R&D"]);
    assert_eq!(
        single_page(&site(), &odd, "<p>1 &lt; 2</p>".to_string()),
        framed(
            "<article><h1>a &lt; b &amp; &quot;c&quot; &gt; d</h1><div><p>1 &lt; 2</p></div><div><ul id=\"tags\"><li><a href=\"https://example.org/categories/r&amp;d\">R&amp;D</a></li></ul></div></article>"
        )
    );
}

#[test]
fn the_frame_shows_the_site_settings_and_the_menu() {
    let website = Website {
        base_url: "https://a.b/?x=1&y=2".to_string(),
        title: "T <1>".to_string(),
        menu_items: vec![
            Link { url: "/about".to_string(), title: "About".to_string() },
            Link { url: "/q?a\"b".to_string(), title: "Q & A".to_string() },
        ],
        description: "D \"quoted\"".to_string(),
        author: "A & B".to_string(),
        year: "2023".to_string(),
    };
    assert_eq!(
        category_list(&website, "Categories", Vec::new()),
        "<!DOCTYPE html><html lang=\"en-us\"><head><meta charset=\"utf-8\"><meta name=\"viewport\" content=\"width=device-width, initial-scale=1\"><meta http-equiv=\"X-UA-Compatible\" content=\"IE=edge\"><meta name=\"description\" content=\"D &quot;quoted&quot;\"><meta name=\"author\" content=\"A &amp; B\"><title>T &lt;1&gt;</title><link rel=\"stylesheet\" href=\"css/style.css\"></head><body><header><a href=\"https://a.b/?x=1&amp;y=2\">T &lt;1&gt;</a><nav><ul><li><a href=\"/about\">About</a></li><li><a href=\"/q?a&quot;b\">Q &amp; A</a></li></ul></nav></header><main><article><h1>Categories</h1><div><ul id=\"tags\"></ul></div></article></main><footer><p>&copy2023&nbsp;<a href=\"https://a.b/?x=1&amp;y=2\">T &lt;1&gt;</a></p></footer></body></html>"
    );
}

#[test]
fn archive_lists_pages_under_their_years() {
    let first = page("First", "public/posts/first.html", Some((2022, 3, 4)), &[]);
    let second = page("Second", "/second", Some((2022, 12, 24)), &[]);
    let old = page("Old & gold", "public/old.html", Some((1999, 1, 31)), &[]);
    let years = vec![
        ("2022".to_string(), vec![&first, &second]),
        ("1999".to_string(), vec![&old]),
    ];
    assert_eq!(
        archive(&site(), "Archive", years),
        framed(
            "<h1>Archive</h1><div><ul id=\"articles\"><li><h2>2022</h2><li><time>2022.03.04</time>&nbsp;<a href=\"public/posts/first.html\">First</a></li><li><time>2022.12.24</time>&nbsp;<a href=\"/second\">Second</a></li></li><li><h2>1999</h2><li><time>1999.01.31</time>&nbsp;<a href=\"public/old.html\">Old &amp; gold</a></li></li></ul></div>"
        )
    );
}

#[test]
fn archive_without_pages_is_an_empty_list() {
    assert_eq!(
        archive(&site(), "Categories: <none>", Vec::new()),
        framed("<h1>Categories: &lt;none&gt;</h1><div><ul id=\"articles\"></ul></div>")
    );
}

#[test]
fn category_list_shows_each_link() {
    let links = vec![
        Link { url: "https://example.org/categories/rust".to_string(), title: "Rust".to_string() },
        Link { url: "https://example.org/categories/web".to_string(), title: "web".to_string() },
    ];
    assert_eq!(
        category_list(&site(), "Categories", links),
        framed(
            "<article><h1>Categories</h1><div><ul id=\"tags\"><li><a href=\"https://example.org/categories/rust\">Rust</a></li><li><a href=\"https://example.org/categories/web\">web</a></li></ul></div></article>"
        )
    );
}

#[test]
fn project_list_shows_each_link() {
    let links =
        vec![Link { url: "https://example.org/projects/wheel".to_string(), title: "Wheel".to_string() }];
    assert_eq!(
        project_list(&site(), "Projects", links),
        framed(
            "<article><h1>Projects</h1><div><ul id=\"tags\"><li><a href=\"https://example.org/projects/wheel\">Wheel</a></li></ul></div></article>"
        )
    );
}

#[test]
fn a_tag_list_holds_one_entry_for_each_link() {
    let links: Vec<Link> = ["a", "b", "c"]
        .iter()
        .map(|t| Link { url: format!("https://example.org/categories/{}", t), title: t.to_string() })
        .collect();
    let document = category_list(&site(), "Categories", links);
    assert_eq!(document.matches("<li>").count(), 3);
    assert_eq!(document.matches("<li><a href=\"https://example.org/categories/b\">b</a></li>").count(), 1);
}

#[test]
fn an_archive_holds_one_date_line_for_each_page() {
    let first = page("First", "public/first.html", Some((2022, 3, 4)), &[]);
    let second = page("Second <time", "public/second.html", Some((2022, 12, 24)), &[]);
    let old = page("Old", "public/old.html", Some((1999, 1, 31)), &[]);
    let years = vec![
        ("2022".to_string(), vec![&first, &second]),
        ("1999".to_string(), vec![&old]),
    ];
    let document = archive(&site(), "Archive <time>", years);
    assert_eq!(document.matches("<time").count(), 3);
    assert_eq!(document.matches("<li>").count(), 5);
}

#[test]
fn an_undated_page_shows_no_date_line() {
    let about = page("About <time>", "public/about.html", None, &["<time"]);
    let document = single_page(&site(), &about, "<p>time</p>".to_string());
    assert_eq!(document.matches("<time").count(), 0);
    assert!(document.contains("<h1>About &lt;time&gt;</h1><div><p>time</p></div>"));
}
