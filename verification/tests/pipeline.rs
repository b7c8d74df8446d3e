//! End-to-end scenarios: markdown source through the parser to elements.
use rnotes::elements::{MarkdownElement, TableAlignment};
use rnotes::markdown::MarkdownRenderer;

fn parse(src: &str) -> Vec<MarkdownElement> {
    MarkdownRenderer::new().parse_markdown(src).unwrap()
}

#[test]
fn empty_source_parses_to_no_elements() {
    assert_eq!(parse(""), vec![]);
}

#[test]
fn heading_parses_with_level_and_text() {
    assert_eq!(
        parse("# Hi"),
        vec![MarkdownElement::Heading { level: 1, text: "Hi".to_string() }]
    );
    assert_eq!(
        parse("### Title"),
        vec![MarkdownElement::Heading { level: 3, text: "Title".to_string() }]
    );
}

#[test]
fn paragraph_parses_trimmed() {
    assert_eq!(
        parse("hello world"),
        vec![MarkdownElement::Paragraph { text: "hello world".to_string() }]
    );
}

#[test]
fn paragraph_joins_soft_broken_lines_without_a_space() {
    // Soft line breaks are dropped, so adjacent text runs touch; the
    // renderer never re-reads the source, so this stays visible here.
    assert_eq!(
        parse("a\nb"),
        vec![MarkdownElement::Paragraph { text: "ab".to_string() }]
    );
}

#[test]
fn emphasis_markers_are_consumed_by_the_tokenizer() {
    // Inside a well-formed paragraph the tokenizer eats `**`; the
    // renderer's own marker detection applies to the element text.
    assert_eq!(
        parse("**bold**"),
        vec![MarkdownElement::Paragraph { text: "bold".to_string() }]
    );
}

#[test]
fn fenced_code_block_keeps_language_and_body() {
    assert_eq!(
        parse("```rust\nlet x = 1;\n```"),
        vec![MarkdownElement::CodeBlock {
            language: Some("rust".to_string()),
            code: "let x = 1;".to_string(),
        }]
    );
}

#[test]
fn fenced_code_block_without_tag_has_no_language() {
    assert_eq!(
        parse("```\ncode\n```"),
        vec![MarkdownElement::CodeBlock { language: None, code: "code".to_string() }]
    );
}

#[test]
fn indented_code_block_has_no_language() {
    assert_eq!(
        parse("    foo\n"),
        vec![MarkdownElement::CodeBlock { language: None, code: "foo".to_string() }]
    );
}

#[test]
fn inline_code_is_a_standalone_element() {
    assert_eq!(
        parse("`x`"),
        vec![
            MarkdownElement::InlineCode { text: "x".to_string() },
            MarkdownElement::Paragraph { text: String::new() },
        ]
    );
}

#[test]
fn link_element_carries_text_and_url() {
    assert_eq!(
        parse("[t](http://e.com)"),
        vec![
            MarkdownElement::Link { text: "t".to_string(), url: "http://e.com".to_string() },
            MarkdownElement::Paragraph { text: String::new() },
        ]
    );
}

#[test]
fn block_quote_parses_per_paragraph() {
    assert_eq!(
        parse("> hi"),
        vec![MarkdownElement::BlockQuote { text: "hi".to_string() }]
    );
}

#[test]
fn rule_parses_to_rule() {
    assert_eq!(parse("---\n"), vec![MarkdownElement::Rule]);
}

#[test]
fn ordered_list_parses_in_source_order() {
    assert_eq!(
        parse("1. a\n2. b\n3. c"),
        vec![MarkdownElement::List {
            items: vec!["a".to_string(), "b".to_string(), "c".to_string()],
            ordered: true,
        }]
    );
}

#[test]
fn unordered_list_parses_unordered() {
    assert_eq!(
        parse("- a\n- b\n- c"),
        vec![MarkdownElement::List {
            items: vec!["a".to_string(), "b".to_string(), "c".to_string()],
            ordered: false,
        }]
    );
}

#[test]
fn table_parses_headers_rows_and_alignments() {
    assert_eq!(
        parse("| A | B |\n|---|---|\n| 1 | 2 |"),
        vec![MarkdownElement::Table {
            headers: vec!["A".to_string(), "B".to_string()],
            rows: vec![vec!["1".to_string(), "2".to_string()]],
            alignments: vec![TableAlignment::Left, TableAlignment::Left],
        }]
    );
}

#[test]
fn table_alignment_markers_are_read() {
    assert_eq!(
        parse("| A | B | C |\n|:--|:-:|--:|\n| 1 | 2 | 3 |"),
        vec![MarkdownElement::Table {
            headers: vec!["A".to_string(), "B".to_string(), "C".to_string()],
            rows: vec![vec!["1".to_string(), "2".to_string(), "3".to_string()]],
            alignments: vec![
                TableAlignment::Left,
                TableAlignment::Center,
                TableAlignment::Right,
            ],
        }]
    );
}

#[test]
fn heading_after_open_paragraph_flushes_the_paragraph() {
    assert_eq!(
        parse("before\n# H"),
        vec![
            MarkdownElement::Paragraph { text: "before".to_string() },
            MarkdownElement::Heading { level: 1, text: "H".to_string() },
        ]
    );
}

#[test]
fn document_with_several_blocks_keeps_source_order() {
    let elements = parse("# T\n\npara one\n\n- x\n- y\n\n> q\n");
    assert_eq!(
        elements,
        vec![
            MarkdownElement::Heading { level: 1, text: "T".to_string() },
            MarkdownElement::Paragraph { text: "para one".to_string() },
            MarkdownElement::List {
                items: vec!["x".to_string(), "y".to_string()],
                ordered: false,
            },
            MarkdownElement::BlockQuote { text: "q".to_string() },
        ]
    );
}

#[test]
fn two_tables_keep_their_own_headers() {
    let elements = parse(
        "| A | B |\n|---|---|\n| 1 | 2 |\n\n| C | D |\n|---|---|\n| 3 | 4 |",
    );
    assert_eq!(
        elements,
        vec![
            MarkdownElement::Table {
                headers: vec!["A".to_string(), "B".to_string()],
                rows: vec![vec!["1".to_string(), "2".to_string()]],
                alignments: vec![TableAlignment::Left, TableAlignment::Left],
            },
            MarkdownElement::Table {
                headers: vec!["C".to_string(), "D".to_string()],
                rows: vec![vec!["3".to_string(), "4".to_string()]],
                alignments: vec![TableAlignment::Left, TableAlignment::Left],
            },
        ]
    );
}

#[test]
fn table_without_data_rows_has_headers_only() {
    assert_eq!(
        parse("| A | B |\n|---|---|"),
        vec![MarkdownElement::Table {
            headers: vec!["A".to_string(), "B".to_string()],
            rows: vec![],
            alignments: vec![TableAlignment::Left, TableAlignment::Left],
        }]
    );
}
