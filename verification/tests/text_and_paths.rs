use sitegen::error::BuildError;
use sitegen::page::{prepare_path, Link, Page, PageConfig, Taxonomy, Website};
use sitegen::paths::{get_html_file_path, page_type, PageType};
use sitegen::text::{remove_prefix, remove_suffix};

fn page_at(path: &str, categories: &[&str]) -> Page {
    Page {
        html_file_path: path.to_string(),
        config: PageConfig {
            title: "A page".to_string(),
            path: path.to_string(),
            date: None,
            categories: categories.iter().map(|c| c.to_string()).collect(),
            projects: Vec::new(),
        },
    }
}

fn plain_site() -> Website {
    Website {
        base_url: "https://example.org".to_string(),
        title: "Site".to_string(),
        menu_items: Vec::new(),
        description: "Desc".to_string(),
        author: "Me".to_string(),
        year: "2022".to_string(),
    }
}

#[test]
fn remove_prefix_cuts_a_prefix_that_is_there() {
    assert_eq!(remove_prefix("---\ntitle: x\n", "---\n"), "title: x\n");
    assert_eq!(remove_prefix("content/a.md", "content"), "/a.md");
    assert_eq!(remove_prefix("abc", "abc"), "");
    assert_eq!(remove_prefix("abc", ""), "abc");
}

#[test]
fn remove_prefix_keeps_a_text_without_the_prefix() {
    assert_eq!(remove_prefix("title: x\n---\n", "---\n"), "title: x\n---\n");
    assert_eq!(remove_prefix("ab", "abc"), "ab");
    assert_eq!(remove_prefix("", "x"), "");
}

#[test]
fn remove_suffix_cuts_a_suffix_that_is_there() {
    assert_eq!(remove_suffix("---\ntitle: x\n---\n", "---\n"), "---\ntitle: x\n");
    assert_eq!(remove_suffix("hello.md", ".md"), "hello");
    assert_eq!(remove_suffix("abc", "abc"), "");
}

#[test]
fn remove_suffix_keeps_a_text_without_the_suffix() {
    assert_eq!(remove_suffix("---\ntitle: x\n---\r\n", "---\n"), "---\ntitle: x\n---\r\n");
    assert_eq!(remove_suffix("md", ".md"), "md");
}

#[test]
fn html_path_replaces_root_and_extension() {
    assert_eq!(get_html_file_path("content/posts/hello.md"), Ok("public/posts/hello.html".to_string()));
    assert_eq!(get_html_file_path("content/about.md"), Ok("public/about.html".to_string()));
}

#[test]
fn html_path_keeps_every_directory_between() {
    assert_eq!(
        get_html_file_path("content/a/b/c/d.e.md"),
        Ok("public/a/b/c/d.e.html".to_string())
    );
    assert_eq!(
        get_html_file_path("content/content/x.md.md"),
        Ok("public/content/x.md.html".to_string())
    );
}

#[test]
fn html_path_refuses_a_file_outside_the_content_root() {
    assert_eq!(get_html_file_path("posts/hello.md"), Err(BuildError::MissingContentPrefix));
    assert_eq!(get_html_file_path("/content/hello.md"), Err(BuildError::MissingContentPrefix));
    assert_eq!(get_html_file_path(""), Err(BuildError::MissingContentPrefix));
    assert_eq!(get_html_file_path("conten"), Err(BuildError::MissingContentPrefix));
}

#[test]
fn html_path_refuses_a_file_that_is_not_markdown() {
    assert_eq!(get_html_file_path("content/hello.txt"), Err(BuildError::MissingMarkdownSuffix));
    assert_eq!(get_html_file_path("content/hello.md.bak"), Err(BuildError::MissingMarkdownSuffix));
    assert_eq!(get_html_file_path("content/hello.MD"), Err(BuildError::MissingMarkdownSuffix));
    assert_eq!(get_html_file_path("content"), Err(BuildError::MissingMarkdownSuffix));
}

#[test]
fn a_missing_prefix_is_reported_before_a_missing_extension() {
    assert_eq!(get_html_file_path("posts/hello.txt"), Err(BuildError::MissingContentPrefix));
}

#[test]
fn prepare_path_prefers_the_declared_link() {
    assert_eq!(prepare_path("/custom/link".to_string(), "public/a.html"), "/custom/link");
}

#[test]
fn prepare_path_falls_back_to_the_output_path() {
    assert_eq!(prepare_path(String::new(), "public/a.html"), "public/a.html");
}

#[test]
fn pages_under_the_posts_directory_are_posts() {
    assert_eq!(page_type(&page_at("public/posts/hello.html", &[])), PageType::POST);
    assert_eq!(page_type(&page_at("public/posts/2022/hello.html", &[])), PageType::POST);
    assert_eq!(page_type(&page_at("public/posts", &[])), PageType::POST);
}

#[test]
fn pages_elsewhere_are_plain_pages() {
    assert_eq!(page_type(&page_at("public/about.html", &[])), PageType::PAGE);
    assert_eq!(page_type(&page_at("public/postscript/a.html", &[])), PageType::PAGE);
    assert_eq!(page_type(&page_at("public/posts.html", &[])), PageType::PAGE);
    assert_eq!(page_type(&page_at("posts/a.html", &[])), PageType::PAGE);
}

#[test]
fn category_links_lead_to_the_archives_of_the_categories() {
    let site = plain_site();
    let page = page_at("public/a.html", &["rust", "Static Sites", "Rust"]);
    assert_eq!(
        site.get_category_links_for_page(&page),
        vec![
            Link {
                url: "https://example.org/categories/rust".to_string(),
                title: "rust".to_string()
            },
            Link {
                url: "https://example.org/categories/static sites".to_string(),
                title: "Static Sites".to_string()
            },
            Link {
                url: "https://example.org/categories/rust".to_string(),
                title: "Rust".to_string()
            },
        ]
    );
}

#[test]
fn a_link_to_a_tag_names_its_taxonomy() {
    let site = plain_site();
    assert_eq!(
        site.link_to_tag(Taxonomy::Categories, &"Rust".to_string()),
        Link { url: "https://example.org/categories/rust".to_string(), title: "Rust".to_string() }
    );
    assert_eq!(
        site.link_to_tag(Taxonomy::Projects, &"The Wheel".to_string()),
        Link {
            url: "https://example.org/projects/the wheel".to_string(),
            title: "The Wheel".to_string()
        }
    );
}

#[test]
fn a_page_without_categories_has_no_category_links() {
    let site = plain_site();
    assert_eq!(site.get_category_links_for_page(&page_at("public/a.html", &[])), Vec::new());
}

#[test]
fn the_site_wide_category_menu_is_empty() {
    assert_eq!(plain_site().get_all_category_links(), Vec::new());
}
