use sitegen::error::BuildError;
use sitegen::markdown::prepare_options;
use sitegen::page::{Link, Taxonomy, Website};
use sitegen::site::{
    all_tag_links, build_documents, build_site, prepare_page_data, prepare_pages,
    save_to_html_file, site_archive, site_listings, taxonomy_listing, wrap_pages, OutputFile,
    SourceFile,
};
use sitegen::index::{page_refs, pages_by_category};

fn wheel() -> Website {
    Website {
        base_url: "https://example.org".to_string(),
        title: "Site".to_string(),
        menu_items: Vec::new(),
        description: "Desc".to_string(),
        author: "Me".to_string(),
        year: "2022".to_string(),
    }
}

fn source(path: &str, contents: &str) -> SourceFile {
    SourceFile { path: path.to_string(), contents: contents.to_string() }
}

fn hello() -> SourceFile {
    source(
        "content/posts/hello.md",
        "---\ntitle: Hello\ndate: 2022-01-01T10:00\ncategories: [rust]\n---\nBody\n",
    )
}

fn file<'a>(files: &'a [OutputFile], path: &str) -> &'a OutputFile {
    let found: Vec<&OutputFile> = files.iter().filter(|f| f.path == path).collect();
    assert_eq!(found.len(), 1, "{}", path);
    found[0]
}

fn paths(files: &[OutputFile]) -> Vec<&str> {
    files.iter().map(|f| f.path.as_str()).collect()
}

#[test]
fn a_page_is_written_where_its_source_path_says() {
    let data = prepare_page_data(
        "content/posts/hello.md",
        "---\ntitle: Hello\n---\nBody\n",
        &prepare_options(),
    )
    .unwrap();
    assert_eq!(data.page.html_file_path, "public/posts/hello.html");
    assert_eq!(data.page.config.path, "public/posts/hello.html");
    assert_eq!(data.content, "<p>Body</p>\n");
}

#[test]
fn a_declared_link_does_not_move_the_output_file() {
    let data = prepare_page_data(
        "content/posts/hello.md",
        "---\ntitle: Hello\npath: /elsewhere/hello\n---\nBody\n",
        &prepare_options(),
    )
    .unwrap();
    assert_eq!(data.page.html_file_path, "public/posts/hello.html");
    assert_eq!(data.page.config.path, "/elsewhere/hello");
}

#[test]
fn a_bad_path_is_reported_before_a_bad_header() {
    assert_eq!(
        prepare_page_data("elsewhere/hello.md", "no header", &prepare_options()).err(),
        Some(BuildError::MissingContentPrefix)
    );
    assert_eq!(
        prepare_page_data("content/hello.txt", "no header", &prepare_options()).err(),
        Some(BuildError::MissingMarkdownSuffix)
    );
    assert_eq!(
        prepare_page_data("content/hello.md", "no header", &prepare_options()).err(),
        Some(BuildError::MalformedHeader)
    );
}

#[test]
fn the_body_is_saved_at_the_output_path_before_it_is_wrapped() {
    let data = prepare_page_data(&hello().path, &hello().contents, &prepare_options()).unwrap();
    assert_eq!(
        save_to_html_file(&data),
        OutputFile {
            path: "public/posts/hello.html".to_string(),
            content: "<p>Body</p>\n".to_string()
        }
    );
}

#[test]
fn the_example_site_has_its_wrapped_page() {
    let files = build_site(&wheel(), &vec![hello()], &prepare_options()).unwrap();
    let page = file(&files, "public/posts/hello.html");
    assert!(page.content.starts_with("<!DOCTYPE html><html lang=\"en-us\">"));
    assert!(page.content.ends_with("</body></html>"));
    assert!(page.content.contains("<h1>Hello</h1>"));
    assert!(page.content.contains("<time>2022.01.01</time>"));
    assert!(page.content.contains("<div><p>Body</p>\n</div>"));
    assert!(page
        .content
        .contains("<li><a href=\"https://example.org/categories/rust\">rust</a></li>"));
}

#[test]
fn the_example_site_lists_the_page_under_its_category_and_year() {
    let files = build_site(&wheel(), &vec![hello()], &prepare_options()).unwrap();
    let listing = file(&files, "public/categories/rust/index.html");
    assert!(listing.content.contains("<h1>Categories: rust</h1>"));
    assert!(listing.content.contains(
        "<li><h2>2022</h2><li><time>2022.01.01</time>&nbsp;<a href=\"public/posts/hello.html\">Hello</a></li></li>"
    ));
    let index = file(&files, "public/categories/index.html");
    assert!(index
        .content
        .contains("<li><a href=\"https://example.org/categories/rust\">rust</a></li>"));
    let archive = file(&files, "public/index.html");
    assert!(archive.content.contains("<h1>Archive</h1>"));
    assert!(archive.content.contains("<li><h2>2022</h2>"));
}

#[test]
fn the_files_come_in_a_fixed_sequence() {
    let sources = vec![
        hello(),
        source("content/about.md", "---\ntitle: About\nprojects: [Wheel, axle]\n---\nMe\n"),
        source(
            "content/posts/second.md",
            "---\ntitle: Second\ndate: 2021-05-06T07:08\ncategories: [Web, rust]\n---\nMore\n",
        ),
    ];
    let files = build_site(&wheel(), &sources, &prepare_options()).unwrap();
    assert_eq!(
        paths(&files),
        vec![
            "public/posts/hello.html",
            "public/about.html",
            "public/posts/second.html",
            "public/index.html",
            "public/categories/index.html",
            "public/categories/web/index.html",
            "public/categories/rust/index.html",
            "public/projects/index.html",
            "public/projects/wheel/index.html",
            "public/projects/axle/index.html",
        ]
    );
}

#[test]
fn tags_keep_their_case_in_texts_and_lose_it_in_addresses() {
    let sources =
        vec![source("content/a.md", "---\ntitle: A\ncategories: [Static SITES, ÉTÉ]\n---\nx\n")];
    let files = build_site(&wheel(), &sources, &prepare_options()).unwrap();
    let index = file(&files, "public/categories/index.html");
    assert!(index.content.contains(
        "<li><a href=\"https://example.org/categories/static sites\">Static SITES</a></li><li><a href=\"https://example.org/categories/été\">ÉTÉ</a></li>"
    ));
    let listing = file(&files, "public/categories/static sites/index.html");
    assert!(listing.content.contains("<h1>Categories: Static SITES</h1>"));
    assert!(file(&files, "public/categories/été/index.html")
        .content
        .contains("<h1>Categories: ÉTÉ</h1>"));
}

#[test]
fn an_undated_page_has_its_file_and_its_tags_but_no_year() {
    let sources = vec![
        source("content/about.md", "---\ntitle: About\ncategories: [meta]\n---\nMe\n"),
        hello(),
    ];
    let files = build_site(&wheel(), &sources, &prepare_options()).unwrap();
    let about = file(&files, "public/about.html");
    assert!(about.content.contains("<h1>About</h1>"));
    assert!(!about.content.contains("<time>"));
    assert!(file(&files, "public/categories/index.html")
        .content
        .contains("<li><a href=\"https://example.org/categories/meta\">meta</a></li>"));
    assert!(!file(&files, "public/index.html").content.contains("About"));
    let listing = file(&files, "public/categories/meta/index.html");
    assert!(listing.content.contains("<ul id=\"articles\"></ul>"));
}

#[test]
fn a_page_with_two_categories_is_in_both_archives_once() {
    let sources = vec![
        source(
            "content/posts/both.md",
            "---\ntitle: Both\ndate: 2022-02-02T02:02\ncategories: [A, B]\n---\nx\n",
        ),
        source(
            "content/posts/other.md",
            "---\ntitle: Other\ndate: 2022-03-03T03:03\ncategories: [C]\n---\nx\n",
        ),
    ];
    let files = build_site(&wheel(), &sources, &prepare_options()).unwrap();
    let entry = "<a href=\"public/posts/both.html\">Both</a>";
    assert_eq!(file(&files, "public/categories/a/index.html").content.matches(entry).count(), 1);
    assert_eq!(file(&files, "public/categories/b/index.html").content.matches(entry).count(), 1);
    assert_eq!(file(&files, "public/categories/c/index.html").content.matches(entry).count(), 0);
    let index = &file(&files, "public/categories/index.html").content;
    assert_eq!(index.matches("<li>").count(), 3);
    assert_eq!(index.matches(">A</a>").count(), 1);
    assert_eq!(index.matches(">B</a>").count(), 1);
}

#[test]
fn a_bad_date_stops_the_build_without_any_file() {
    let sources = vec![
        hello(),
        source("content/posts/bad.md", "---\ntitle: Bad\ndate: 2022-13-40\n---\nx\n"),
        source("content/posts/late.md", "---\ntitle: Late\n---\nx\n"),
    ];
    assert_eq!(
        build_site(&wheel(), &sources, &prepare_options()).err(),
        Some(BuildError::MalformedDate)
    );
    assert_eq!(prepare_pages(&sources, &prepare_options()).err(), Some(BuildError::MalformedDate));
}

#[test]
fn pages_before_a_bad_file_can_be_made_on_their_own() {
    let options = prepare_options();
    let first = prepare_page_data(&hello().path, &hello().contents, &options);
    let second = prepare_page_data(
        "content/posts/bad.md",
        "---\ntitle: Bad\ndate: 2022-13-40\n---\nx\n",
        &options,
    );
    assert_eq!(save_to_html_file(&first.unwrap()).path, "public/posts/hello.html");
    assert_eq!(second.err(), Some(BuildError::MalformedDate));
}

#[test]
fn the_first_failure_is_the_one_reported() {
    let sources = vec![
        source("content/a.md", "---\ndate: 2022-01-01T10:00\n---\nx\n"),
        source("content/b.md", "---\ntitle: B\ndate: never\n---\nx\n"),
        source("elsewhere/c.md", "---\ntitle: C\n---\nx\n"),
    ];
    assert_eq!(
        build_site(&wheel(), &sources, &prepare_options()).err(),
        Some(BuildError::MissingTitle)
    );
}

#[test]
fn the_same_content_gives_the_same_site() {
    let sources = vec![
        hello(),
        source("content/about.md", "---\ntitle: About\nprojects: [b, a, c]\n---\nMe\n"),
        source(
            "content/posts/second.md",
            "---\ntitle: Second\ndate: 2021-05-06T07:08\ncategories: [web, rust, art]\n---\nx\n",
        ),
    ];
    let first = build_site(&wheel(), &sources, &prepare_options()).unwrap();
    let second = build_site(&wheel(), &sources, &prepare_options()).unwrap();
    assert_eq!(first, second);
}

#[test]
fn an_empty_site_still_has_its_listings() {
    let files = build_site(&wheel(), &Vec::new(), &prepare_options()).unwrap();
    assert_eq!(
        paths(&files),
        vec!["public/index.html", "public/categories/index.html", "public/projects/index.html"]
    );
    assert!(file(&files, "public/index.html").content.contains("<ul id=\"articles\"></ul>"));
}

#[test]
fn the_stages_of_a_build_agree_with_the_whole() {
    let sources = vec![
        hello(),
        source("content/about.md", "---\ntitle: About\nprojects: [wheel]\n---\nMe\n"),
    ];
    let options = prepare_options();
    let contents = prepare_pages(&sources, &options).unwrap();
    let pages: Vec<_> = contents.iter().map(|c| c.page.clone()).collect();
    let refs = page_refs(&pages);
    let mut staged = wrap_pages(&wheel(), &contents);
    staged.push(site_archive(&wheel(), &refs));
    staged.extend(taxonomy_listing(&wheel(), Taxonomy::Categories, &refs));
    staged.extend(taxonomy_listing(&wheel(), Taxonomy::Projects, &refs));
    assert_eq!(staged, build_site(&wheel(), &sources, &options).unwrap());
    assert_eq!(staged, build_documents(&wheel(), &contents));
    assert_eq!(staged[2..].to_vec(), site_listings(&wheel(), &refs));
}

#[test]
fn tag_links_follow_the_index() {
    let contents = prepare_pages(
        &vec![source("content/a.md", "---\ntitle: A\ncategories: [b, A]\n---\nx\n")],
        &prepare_options(),
    )
    .unwrap();
    let pages: Vec<_> = contents.iter().map(|c| c.page.clone()).collect();
    let refs = page_refs(&pages);
    let index = pages_by_category(&refs);
    assert_eq!(
        all_tag_links(&wheel(), Taxonomy::Categories, &index),
        vec![
            Link { url: "https://example.org/categories/a".to_string(), title: "A".to_string() },
            Link { url: "https://example.org/categories/b".to_string(), title: "b".to_string() },
        ]
    );
    assert_eq!(
        all_tag_links(&wheel(), Taxonomy::Projects, &index),
        vec![
            Link { url: "https://example.org/projects/a".to_string(), title: "A".to_string() },
            Link { url: "https://example.org/projects/b".to_string(), title: "b".to_string() },
        ]
    );
}

#[test]
fn tags_that_differ_only_in_case_share_an_address() {
    let sources = vec![
        source("content/a.md", "---\ntitle: A\ndate: 2022-01-01T10:00\ncategories: [rust]\n---\nx\n"),
        source("content/b.md", "---\ntitle: B\ndate: 2022-01-02T10:00\ncategories: [Rust]\n---\nx\n"),
    ];
    let files = build_site(&wheel(), &sources, &prepare_options()).unwrap();
    let archives: Vec<&OutputFile> =
        files.iter().filter(|f| f.path == "public/categories/rust/index.html").collect();
    assert_eq!(archives.len(), 2);
    assert!(archives[0].content.contains("<h1>Categories: Rust</h1>"));
    assert!(archives[1].content.contains("<h1>Categories: rust</h1>"));
}

#[test]
fn the_tag_link_of_a_page_leads_to_the_archive_of_the_category() {
    let sources = vec![source(
        "content/posts/hello.md",
        "---\ntitle: Hello\ndate: 2022-01-01T10:00\ncategories: [Rust Lang]\n---\nBody\n",
    )];
    let files = build_site(&wheel(), &sources, &prepare_options()).unwrap();
    let page = file(&files, "public/posts/hello.html");
    assert!(page.content.contains(
        "<li><a href=\"https://example.org/categories/rust lang\">Rust Lang</a></li>"
    ));
    assert!(!page.content.contains("/tags/"));
    let index = file(&files, "public/categories/index.html");
    assert!(index.content.contains(
        "<li><a href=\"https://example.org/categories/rust lang\">Rust Lang</a></li>"
    ));
    assert_eq!(file(&files, "public/categories/rust lang/index.html").path.len() > 0, true);
}
