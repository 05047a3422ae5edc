use page_styler::config::{ConfValue, get_class_for};
use page_styler::lines::{LineKind, classify, style_line, wrap_with_html};
use page_styler::styler::{Book, BookItem, PageStyler};

/// A configuration table with one selector mapped to `{ class = <class> }`.
fn one_class(selector: &str, class: &str) -> Vec<(String, ConfValue)> {
    vec![(
        selector.to_string(),
        ConfValue::Table(vec![("class".to_string(), ConfValue::Str(class.to_string()))]),
    )]
}

#[test]
fn it_checks_supported_renderer() {
    let processor = PageStyler::new();

    assert!(processor.supports_renderer("html"));
    assert_ne!(processor.supports_renderer("pdf"), true);
}

#[test]
fn renderer_names_other_than_html_are_unsupported() {
    let processor = PageStyler::new();
    assert!(!processor.supports_renderer(""));
    assert!(!processor.supports_renderer("HTML"));
    assert!(!processor.supports_renderer("html "));
}

#[test]
fn preprocessor_name_is_page_styles() {
    let processor = PageStyler::new();
    assert_eq!(processor.name(), "page-styles");
}

#[test]
fn classify_finds_each_heading_level() {
    assert_eq!(classify("# one"), LineKind::H1);
    assert_eq!(classify("## two"), LineKind::H2);
    assert_eq!(classify("### three"), LineKind::H3);
    assert_eq!(classify("#### four"), LineKind::H4);
    assert_eq!(classify("##### five"), LineKind::H5);
    assert_eq!(classify("###### six"), LineKind::H6);
}

#[test]
fn classify_yields_plain_without_marker() {
    assert_eq!(classify("hello"), LineKind::Plain);
    assert_eq!(classify(""), LineKind::Plain);
    assert_eq!(classify("#"), LineKind::Plain);
    assert_eq!(classify("#nospace"), LineKind::Plain);
    assert_eq!(classify("####### seven"), LineKind::Plain);
    assert_eq!(classify(" # indented"), LineKind::Plain);
}

#[test]
fn plain_lines_stay_byte_identical() {
    let conf = one_class("h2", "big");
    assert_eq!(style_line("just text", &conf), "just text");
    assert_eq!(style_line("", &conf), "");
    assert_eq!(style_line("#nospace", &conf), "#nospace");
}

#[test]
fn heading_with_configured_class_is_wrapped() {
    let conf = one_class("h2", "big");
    assert_eq!(style_line("## Intro", &conf), "<h2 class=\"big\">Intro</h2>");
}

#[test]
fn every_level_wraps_with_its_own_tag() {
    assert_eq!(style_line("# T", &one_class("h1", "a")), "<h1 class=\"a\">T</h1>");
    assert_eq!(style_line("### T", &one_class("h3", "c")), "<h3 class=\"c\">T</h3>");
    assert_eq!(
        style_line("###### T", &one_class("h6", "f")),
        "<h6 class=\"f\">T</h6>"
    );
}

#[test]
fn heading_without_entry_passes_through() {
    let conf = one_class("h2", "big");
    assert_eq!(style_line("### Details", &conf), "### Details");
}

#[test]
fn heading_with_malformed_entry_passes_through() {
    // selector present but its value is not a table
    let bare = vec![("h2".to_string(), ConfValue::Str("big".to_string()))];
    assert_eq!(style_line("## Intro", &bare), "## Intro");

    // selector's table has no `class` key
    let no_class = vec![(
        "h2".to_string(),
        ConfValue::Table(vec![("color".to_string(), ConfValue::Str("red".to_string()))]),
    )];
    assert_eq!(style_line("## Intro", &no_class), "## Intro");

    // `class` present but not a string
    let class_not_string = vec![(
        "h2".to_string(),
        ConfValue::Table(vec![("class".to_string(), ConfValue::Int(3))]),
    )];
    assert_eq!(style_line("## Intro", &class_not_string), "## Intro");
}

#[test]
fn get_class_for_reads_only_well_shaped_entries() {
    let conf = one_class("h1", "title");
    assert_eq!(get_class_for(&conf, "h1"), Some(&"title".to_string()));
    assert_eq!(get_class_for(&conf, "h2"), None);
    let bare = vec![("h1".to_string(), ConfValue::Bool(true))];
    assert_eq!(get_class_for(&bare, "h1"), None);
}

#[test]
fn heading_with_empty_text_is_wrapped() {
    let conf = one_class("h2", "c");
    assert_eq!(style_line("## ", &conf), "<h2 class=\"c\"></h2>");
}

#[test]
fn wrap_builds_the_exact_element() {
    assert_eq!(
        wrap_with_html("## Intro", "h2", "big", "## "),
        "<h2 class=\"big\">Intro</h2>"
    );
    assert_eq!(wrap_with_html("# T", "h1", "a b", "# "), "<h1 class=\"a b\">T</h1>");
}

#[test]
fn chapter_lines_keep_count_and_order() {
    let styler = PageStyler::new();
    let conf = one_class("h2", "big");
    let content = "## One\nplain\n### Three\n\n## Two";
    let out = styler.run_chapter(content, &conf);
    let lines: Vec<&str> = out.split('\n').collect();
    assert_eq!(lines.len(), 5);
    assert_eq!(lines[0], "<h2 class=\"big\">One</h2>");
    assert_eq!(lines[1], "plain");
    assert_eq!(lines[2], "### Three");
    assert_eq!(lines[3], "");
    assert_eq!(lines[4], "<h2 class=\"big\">Two</h2>");
}

#[test]
fn unstyled_chapter_content_round_trips() {
    let styler = PageStyler::new();
    let conf = one_class("h5", "tiny");
    assert_eq!(styler.run_chapter("", &conf), "");
    assert_eq!(styler.run_chapter("a\nb\n", &conf), "a\nb\n");
    assert_eq!(styler.run_chapter("\n\n", &conf), "\n\n");
}

/// The chapter-to-table configuration used by the book-level tests.
fn book_config() -> Vec<(String, ConfValue)> {
    vec![
        ("Intro".to_string(), ConfValue::Table(one_class("h1", "hero"))),
        ("Broken".to_string(), ConfValue::Str("not a table".to_string())),
        ("Last".to_string(), ConfValue::Table(one_class("h2", "late"))),
    ]
}

fn chapter(name: &str, content: &str) -> BookItem {
    BookItem::Chapter { name: name.to_string(), content: content.to_string() }
}

fn chapter_content(item: &BookItem) -> &str {
    match item {
        BookItem::Chapter { content, .. } => content,
        BookItem::Other => panic!("expected a chapter"),
    }
}

#[test]
fn configured_chapter_is_styled() {
    let styler = PageStyler::new();
    let conf = book_config();
    let book = Book { items: vec![chapter("Intro", "# Hello\nbody")] };
    let out = styler.run(Some(&conf), book);
    assert_eq!(chapter_content(&out.items[0]), "<h1 class=\"hero\">Hello</h1>\nbody");
}

#[test]
fn unconfigured_chapter_keeps_content_identical() {
    let styler = PageStyler::new();
    let conf = book_config();
    let book = Book { items: vec![chapter("Elsewhere", "# Hello\n## There")] };
    let out = styler.run(Some(&conf), book);
    assert_eq!(chapter_content(&out.items[0]), "# Hello\n## There");
}

#[test]
fn malformed_entry_skips_chapter_but_not_the_rest() {
    let styler = PageStyler::new();
    let conf = book_config();
    let book = Book {
        items: vec![
            chapter("Broken", "# Unstyled"),
            BookItem::Other,
            chapter("Last", "## Styled"),
        ],
    };
    let out = styler.run(Some(&conf), book);
    assert_eq!(out.items.len(), 3);
    assert_eq!(chapter_content(&out.items[0]), "# Unstyled");
    assert!(matches!(out.items[1], BookItem::Other));
    assert_eq!(chapter_content(&out.items[2]), "<h2 class=\"late\">Styled</h2>");
}

#[test]
fn missing_configuration_leaves_every_chapter_alone() {
    let styler = PageStyler::new();
    let book = Book { items: vec![chapter("Intro", "# Hello")] };
    let out = styler.run(None, book);
    assert_eq!(chapter_content(&out.items[0]), "# Hello");
}

#[test]
fn first_matching_table_entry_wins() {
    let dup = vec![
        (
            "h2".to_string(),
            ConfValue::Table(vec![("class".to_string(), ConfValue::Str("first".to_string()))]),
        ),
        (
            "h2".to_string(),
            ConfValue::Table(vec![("class".to_string(), ConfValue::Str("second".to_string()))]),
        ),
    ];
    assert_eq!(style_line("## T", &dup), "<h2 class=\"first\">T</h2>");
}
