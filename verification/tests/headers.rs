use sitegen::date::Timestamp;
use sitegen::error::BuildError;
use sitegen::header::{decode, get_parsed_yaml_front_matter, read_header, RawHeader};
use sitegen::page::PageConfig;

fn raw_with_title(title: &str) -> RawHeader {
    RawHeader {
        title: Some(title.to_string()),
        path: None,
        date: None,
        categories: None,
        projects: None,
    }
}

fn names(list: &[&str]) -> Vec<String> {
    list.iter().map(|s| s.to_string()).collect()
}

#[test]
fn decode_fills_in_the_defaults() {
    assert_eq!(
        decode(raw_with_title("Hello")),
        Ok(PageConfig {
            title: "Hello".to_string(),
            path: String::new(),
            date: None,
            categories: Vec::new(),
            projects: Vec::new(),
        })
    );
}

#[test]
fn decode_keeps_what_the_header_gives() {
    let raw = RawHeader {
        title: Some("Hello".to_string()),
        path: Some("/hello".to_string()),
        date: Some("2022-01-01T10:00".to_string()),
        categories: Some(names(&["rust", "web"])),
        projects: Some(names(&["wheel"])),
    };
    assert_eq!(
        decode(raw),
        Ok(PageConfig {
            title: "Hello".to_string(),
            path: "/hello".to_string(),
            date: Some(Timestamp { year: 2022, month: 1, day: 1, hour: 10, minute: 0 }),
            categories: names(&["rust", "web"]),
            projects: names(&["wheel"]),
        })
    );
}

#[test]
fn decode_refuses_a_header_without_title() {
    let mut raw = raw_with_title("x");
    raw.title = None;
    assert_eq!(decode(raw), Err(BuildError::MissingTitle));
}

#[test]
fn decode_refuses_a_date_that_is_no_timestamp() {
    let mut raw = raw_with_title("x");
    raw.date = Some("2022-13-40".to_string());
    assert_eq!(decode(raw), Err(BuildError::MalformedDate));
    let mut raw = raw_with_title("x");
    raw.date = Some("2022-13-40T10:00".to_string());
    assert_eq!(decode(raw), Err(BuildError::MalformedDate));
    let mut raw = raw_with_title("x");
    raw.date = Some(String::new());
    assert_eq!(decode(raw), Err(BuildError::MalformedDate));
}

#[test]
fn decode_reports_a_missing_title_before_a_bad_date() {
    let mut raw = raw_with_title("x");
    raw.title = None;
    raw.date = Some("yesterday".to_string());
    assert_eq!(decode(raw), Err(BuildError::MissingTitle));
}

#[test]
fn decode_names_each_tag_once() {
    let mut raw = raw_with_title("x");
    raw.categories = Some(names(&["b", "a", "b", "c", "a", "b"]));
    raw.projects = Some(names(&["p", "p"]));
    let config = decode(raw).unwrap();
    assert_eq!(config.categories, names(&["b", "a", "c"]));
    assert_eq!(config.projects, names(&["p"]));
}

#[test]
fn decode_tells_tags_apart_by_case() {
    let mut raw = raw_with_title("x");
    raw.categories = Some(names(&["Rust", "rust"]));
    assert_eq!(decode(raw).unwrap().categories, names(&["Rust", "rust"]));
}

#[test]
fn front_matter_is_read_between_its_fences() {
    let config = get_parsed_yaml_front_matter(
        "---\ntitle: Hello\ndate: 2022-01-01T10:00\ncategories: [rust]\n---\n",
    )
    .unwrap();
    assert_eq!(config.title, "Hello");
    assert_eq!(config.path, "");
    assert_eq!(config.date, Some(Timestamp { year: 2022, month: 1, day: 1, hour: 10, minute: 0 }));
    assert_eq!(config.categories, names(&["rust"]));
    assert_eq!(config.projects, names(&[]));
}

#[test]
fn front_matter_without_fences_is_read_as_it_is() {
    let config = get_parsed_yaml_front_matter("title: Bare\npath: /bare\n").unwrap();
    assert_eq!(config.title, "Bare");
    assert_eq!(config.path, "/bare");
}

#[test]
fn front_matter_takes_block_lists_and_quoted_texts() {
    let config = get_parsed_yaml_front_matter(
        "---\ntitle: \"A: B\"\nprojects:\n  - wheel\n  - 'cart'\ncategories:\n  - Rust\n---\n",
    )
    .unwrap();
    assert_eq!(config.title, "A: B");
    assert_eq!(config.projects, names(&["wheel", "cart"]));
    assert_eq!(config.categories, names(&["Rust"]));
}

#[test]
fn front_matter_ignores_keys_it_does_not_know() {
    let config =
        get_parsed_yaml_front_matter("---\ntitle: Hello\nlayout: post\ndraft: true\n---\n").unwrap();
    assert_eq!(config.title, "Hello");
}

#[test]
fn front_matter_without_title_is_refused() {
    assert_eq!(
        get_parsed_yaml_front_matter("---\ndate: 2022-01-01T10:00\n---\n"),
        Err(BuildError::MissingTitle)
    );
    assert_eq!(get_parsed_yaml_front_matter("---\n---\n"), Err(BuildError::MissingTitle));
    assert_eq!(get_parsed_yaml_front_matter(""), Err(BuildError::MissingTitle));
}

#[test]
fn front_matter_with_a_bad_date_is_refused() {
    assert_eq!(
        get_parsed_yaml_front_matter("---\ntitle: Hello\ndate: 2022-13-40\n---\n"),
        Err(BuildError::MalformedDate)
    );
    assert_eq!(
        get_parsed_yaml_front_matter("---\ntitle: Hello\ndate: 2022-01-01T10:00:00\n---\n"),
        Err(BuildError::MalformedDate)
    );
}

#[test]
fn front_matter_with_a_null_date_is_undated() {
    let config = get_parsed_yaml_front_matter("---\ntitle: Hello\ndate: ~\n---\n").unwrap();
    assert_eq!(config.date, None);
    let config = get_parsed_yaml_front_matter("---\ntitle: Hello\ndate:\n---\n").unwrap();
    assert_eq!(config.date, None);
}

#[test]
fn front_matter_that_is_not_yaml_is_refused() {
    assert_eq!(
        get_parsed_yaml_front_matter("---\ntitle: [unclosed\n---\n"),
        Err(BuildError::MalformedHeader)
    );
    assert_eq!(
        get_parsed_yaml_front_matter("---\ntitle: a\n\tb: c\n---\n"),
        Err(BuildError::MalformedHeader)
    );
}

#[test]
fn front_matter_with_a_key_twice_is_refused() {
    assert_eq!(
        get_parsed_yaml_front_matter("---\ntitle: One\ntitle: Two\n---\n"),
        Err(BuildError::MalformedHeader)
    );
}

#[test]
fn front_matter_with_values_of_the_wrong_kind_is_refused() {
    assert_eq!(
        get_parsed_yaml_front_matter("---\ntitle: [a, b]\n---\n"),
        Err(BuildError::MalformedHeader)
    );
    assert_eq!(
        get_parsed_yaml_front_matter("---\ntitle: Hello\ncategories: rust\n---\n"),
        Err(BuildError::MalformedHeader)
    );
    assert_eq!(
        get_parsed_yaml_front_matter("---\ntitle: Hello\nprojects: [a, [b]]\n---\n"),
        Err(BuildError::MalformedHeader)
    );
    assert_eq!(
        get_parsed_yaml_front_matter("---\ntitle: Hello\npath: [a]\n---\n"),
        Err(BuildError::MalformedHeader)
    );
    assert_eq!(
        get_parsed_yaml_front_matter("---\ntitle: Hello\ndate: [2022]\n---\n"),
        Err(BuildError::MalformedHeader)
    );
}

#[test]
fn front_matter_that_is_no_mapping_has_no_title() {
    assert_eq!(get_parsed_yaml_front_matter("---\njust a text\n---\n"), Err(BuildError::MissingTitle));
    assert_eq!(get_parsed_yaml_front_matter("---\n- a\n- b\n---\n"), Err(BuildError::MissingTitle));
}

#[test]
fn front_matter_with_windows_line_ends_keeps_its_fences() {
    assert_eq!(
        get_parsed_yaml_front_matter("---\r\ntitle: Hello\r\n---\r\n"),
        Err(BuildError::MalformedHeader)
    );
}

#[test]
fn read_header_takes_each_key_as_written() {
    let document: serde_yaml::Value = serde_yaml::from_str(
        "title: Hello\npath: /p\ndate: not checked here\ncategories: [b, a, b]\nprojects: []\n",
    )
    .unwrap();
    assert_eq!(
        read_header(&document),
        Ok(RawHeader {
            title: Some("Hello".to_string()),
            path: Some("/p".to_string()),
            date: Some("not checked here".to_string()),
            categories: Some(names(&["b", "a", "b"])),
            projects: Some(names(&[])),
        })
    );
}

#[test]
fn read_header_marks_absent_keys() {
    let document: serde_yaml::Value = serde_yaml::from_str("other: 1\n").unwrap();
    assert_eq!(
        read_header(&document),
        Ok(RawHeader { title: None, path: None, date: None, categories: None, projects: None })
    );
}

#[test]
fn a_key_without_a_value_counts_as_absent() {
    let config = get_parsed_yaml_front_matter(
        "---\ntitle: Hello\npath:\ndate:\ncategories:\nprojects:\n---\n",
    )
    .unwrap();
    assert_eq!(config.title, "Hello");
    assert_eq!(config.path, "");
    assert_eq!(config.date, None);
    assert_eq!(config.categories, names(&[]));
    assert_eq!(config.projects, names(&[]));
}

#[test]
fn a_null_value_counts_as_absent() {
    let config = get_parsed_yaml_front_matter(
        "---\ntitle: Hello\npath: ~\ncategories: null\nprojects: ~\n---\n",
    )
    .unwrap();
    assert_eq!(config.path, "");
    assert_eq!(config.categories, names(&[]));
    assert_eq!(config.projects, names(&[]));
}

#[test]
fn a_title_without_a_value_is_a_missing_title() {
    assert_eq!(get_parsed_yaml_front_matter("---\ntitle:\n---\n"), Err(BuildError::MissingTitle));
    assert_eq!(get_parsed_yaml_front_matter("---\ntitle: ~\n---\n"), Err(BuildError::MissingTitle));
}

#[test]
fn numbers_are_read_as_texts() {
    let config = get_parsed_yaml_front_matter(
        "---\ntitle: 2022\npath: 42\ncategories: [2022, -7, 1.5, rust]\nprojects: [0]\n---\n",
    )
    .unwrap();
    assert_eq!(config.title, "2022");
    assert_eq!(config.path, "42");
    assert_eq!(config.categories, names(&["2022", "-7", "1.5", "rust"]));
    assert_eq!(config.projects, names(&["0"]));
}

#[test]
fn booleans_are_read_as_texts() {
    let config =
        get_parsed_yaml_front_matter("---\ntitle: true\ncategories: [false, true]\n---\n").unwrap();
    assert_eq!(config.title, "true");
    assert_eq!(config.categories, names(&["false", "true"]));
}

#[test]
fn a_number_under_date_is_no_timestamp() {
    assert_eq!(
        get_parsed_yaml_front_matter("---\ntitle: Hello\ndate: 2022\n---\n"),
        Err(BuildError::MalformedDate)
    );
}

#[test]
fn quoted_numbers_and_words_stay_as_written() {
    let config = get_parsed_yaml_front_matter(
        "---\ntitle: \"007\"\ncategories: ['1.10', \"True\", 007]\n---\n",
    )
    .unwrap();
    assert_eq!(config.title, "007");
    assert_eq!(config.categories, names(&["1.10", "True", "007"]));
}

#[test]
fn read_header_takes_nulls_numbers_and_booleans() {
    let document: serde_yaml::Value =
        serde_yaml::from_str("title: 12\npath: ~\ndate: true\ncategories: [1, b]\n").unwrap();
    assert_eq!(
        read_header(&document),
        Ok(RawHeader {
            title: Some("12".to_string()),
            path: None,
            date: Some("true".to_string()),
            categories: Some(names(&["1", "b"])),
            projects: None,
        })
    );
}

#[test]
fn a_list_that_holds_a_null_or_a_list_is_refused() {
    assert_eq!(
        get_parsed_yaml_front_matter("---\ntitle: Hello\ncategories: [a, ~]\n---\n"),
        Err(BuildError::MalformedHeader)
    );
    assert_eq!(
        get_parsed_yaml_front_matter("---\ntitle: Hello\ncategories: [a, {b: c}]\n---\n"),
        Err(BuildError::MalformedHeader)
    );
}
