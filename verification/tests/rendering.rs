use sitegen::error::BuildError;
use sitegen::markdown::{assemble_content, parse_document_content, prepare_options, RenderOptions};

#[test]
fn the_site_options_are_the_documented_ones() {
    assert_eq!(
        prepare_options(),
        RenderOptions {
            strikethrough: false,
            tagfilter: false,
            table: true,
            autolink: false,
            tasklist: false,
            superscript: false,
            header_ids: Some("abc".to_string()),
            footnotes: true,
            description_lists: false,
            front_matter_delimiter: Some("---".to_string()),
            smart: false,
            default_info_string: Some("abc".to_string()),
            hardbreaks: false,
            github_pre_lang: false,
            width: 123456,
            unsafe_: false,
            escape: false,
        }
    );
}

#[test]
fn a_content_file_gives_header_and_body() {
    let content =
        parse_document_content("---\ntitle: Hello\n---\nBody\n", &prepare_options()).unwrap();
    assert_eq!(content.original_config.title, "Hello");
    assert_eq!(content.rendered_html, "<p>Body</p>\n");
}

#[test]
fn the_body_is_rendered_as_markdown() {
    let content = parse_document_content(
        "---\ntitle: Hello\n---\n\nHello **world** and *you*\n",
        &prepare_options(),
    )
    .unwrap();
    assert_eq!(content.rendered_html, "<p>Hello <strong>world</strong> and <em>you</em></p>\n");
}

#[test]
fn headings_get_anchors_with_the_set_prefix() {
    let content =
        parse_document_content("---\ntitle: Hello\n---\n\n# Head\n", &prepare_options()).unwrap();
    assert_eq!(
        content.rendered_html,
        "<h1><a href=\"#head\" aria-hidden=\"true\" class=\"anchor\" id=\"abchead\"></a>Head</h1>\n"
    );
}

#[test]
fn tables_are_rendered() {
    let content = parse_document_content(
        "---\ntitle: Hello\n---\n\n| a |\n|---|\n| 1 |\n",
        &prepare_options(),
    )
    .unwrap();
    assert_eq!(
        content.rendered_html,
        "<table>\n<thead>\n<tr>\n<th>a</th>\n</tr>\n</thead>\n<tbody>\n<tr>\n<td>1</td>\n</tr>\n</tbody>\n</table>\n"
    );
}

#[test]
fn raw_html_is_left_out() {
    let content =
        parse_document_content("---\ntitle: Hello\n---\n\nA <b>x</b>\n", &prepare_options())
            .unwrap();
    assert_eq!(
        content.rendered_html,
        "<p>A <!-- raw HTML omitted -->x<!-- raw HTML omitted --></p>\n"
    );
}

#[test]
fn options_steer_the_rendering() {
    let mut options = prepare_options();
    options.unsafe_ = true;
    options.header_ids = None;
    let content =
        parse_document_content("---\ntitle: Hello\n---\n\n# A <b>x</b>\n", &options).unwrap();
    assert_eq!(content.rendered_html, "<h1>A <b>x</b></h1>\n");
}

#[test]
fn only_the_first_block_is_the_header() {
    let content = parse_document_content(
        "---\ntitle: Hello\n---\n\n---\ntitle: Other\n---\n",
        &prepare_options(),
    )
    .unwrap();
    assert_eq!(content.original_config.title, "Hello");
}

#[test]
fn a_file_without_header_is_refused() {
    assert_eq!(
        parse_document_content("No header\n", &prepare_options()).err(),
        Some(BuildError::MalformedHeader)
    );
    assert_eq!(parse_document_content("", &prepare_options()).err(), Some(BuildError::MalformedHeader));
}

#[test]
fn a_header_that_does_not_start_the_file_is_refused() {
    assert_eq!(
        parse_document_content("\n---\ntitle: Hello\n---\nBody\n", &prepare_options()).err(),
        Some(BuildError::MalformedHeader)
    );
}

#[test]
fn a_header_that_is_not_closed_by_a_full_line_is_refused() {
    assert_eq!(
        parse_document_content("---\ntitle: Hello\n---", &prepare_options()).err(),
        Some(BuildError::MalformedHeader)
    );
    assert_eq!(
        parse_document_content("---\ntitle: Hello\nBody\n", &prepare_options()).err(),
        Some(BuildError::MalformedHeader)
    );
}

#[test]
fn without_a_delimiter_no_header_is_found() {
    let mut options = prepare_options();
    options.front_matter_delimiter = None;
    assert_eq!(
        parse_document_content("---\ntitle: Hello\n---\nBody\n", &options).err(),
        Some(BuildError::MalformedHeader)
    );
}

#[test]
fn another_delimiter_fences_the_header() {
    let mut options = prepare_options();
    options.front_matter_delimiter = Some("+++".to_string());
    assert_eq!(
        parse_document_content("---\ntitle: Hello\n---\nBody\n", &options).err(),
        Some(BuildError::MalformedHeader)
    );
}

#[test]
fn a_header_error_is_passed_on() {
    assert_eq!(
        parse_document_content("---\ndate: 2022-01-01T10:00\n---\nBody\n", &prepare_options())
            .err(),
        Some(BuildError::MissingTitle)
    );
    assert_eq!(
        parse_document_content("---\ntitle: x\ndate: 2022-13-40\n---\nBody\n", &prepare_options())
            .err(),
        Some(BuildError::MalformedDate)
    );
}

#[test]
fn assemble_content_decodes_the_block_and_keeps_the_html() {
    let content = assemble_content(
        Some("---\ntitle: Hello\n---\n".to_string()),
        "<p>Body</p>\n".to_string(),
    )
    .unwrap();
    assert_eq!(content.original_config.title, "Hello");
    assert_eq!(content.rendered_html, "<p>Body</p>\n");
}

#[test]
fn assemble_content_refuses_a_missing_block() {
    assert_eq!(
        assemble_content(None, "<p>Body</p>\n".to_string()).err(),
        Some(BuildError::MalformedHeader)
    );
}

#[test]
fn a_delimiter_of_the_greatest_length_is_accepted() {
    let fence = "𝄞".repeat(sitegen::markdown::MAX_DELIMITER_LEN);
    let mut options = prepare_options();
    options.front_matter_delimiter = Some(fence.clone());
    let text = format!("{}\n---\ntitle: Hello\n---\n{}\nBody\n", fence, fence);
    let content = parse_document_content(&text, &options);
    assert_eq!(content.err(), Some(BuildError::MalformedHeader));
    let content = sitegen::markdown::parse_document_content("plain\n", &options);
    assert_eq!(content.err(), Some(BuildError::MalformedHeader));
}

#[test]
fn options_with_a_longer_delimiter_are_not_valid() {
    let mut options = prepare_options();
    assert!(options.is_valid());
    options.front_matter_delimiter = Some("é".repeat(sitegen::markdown::MAX_DELIMITER_LEN));
    assert!(options.is_valid());
    options.front_matter_delimiter = Some("é".repeat(sitegen::markdown::MAX_DELIMITER_LEN + 1));
    assert!(!options.is_valid());
    options.front_matter_delimiter = None;
    assert!(options.is_valid());
}
