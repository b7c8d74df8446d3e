//! Renderer scenarios: elements to styled display lines.
use rnotes::elements::{MarkdownElement, TableAlignment};
use rnotes::markdown::MarkdownRenderer;
use rnotes::style::{SpanColor, StyledLine};

fn render(elements: Vec<MarkdownElement>, width: usize) -> Vec<StyledLine> {
    MarkdownRenderer::new().render_to_text(&elements, width)
}

fn render_source(src: &str, width: usize) -> Vec<StyledLine> {
    let r = MarkdownRenderer::new();
    let elements = r.parse_markdown(src).unwrap();
    r.render_to_text(&elements, width)
}

fn line_text(line: &StyledLine) -> String {
    let mut s = String::new();
    for span in &line.spans {
        s.push_str(&span.text);
    }
    s
}

fn texts(lines: &[StyledLine]) -> Vec<String> {
    lines.iter().map(line_text).collect()
}

#[test]
fn rendering_no_elements_yields_no_lines() {
    assert_eq!(render(vec![], 80).len(), 0);
}

#[test]
fn fenced_code_block_renders_four_lines() {
    let lines = render_source("```rust\nlet x = 1;\n```", 80);
    assert_eq!(
        texts(&lines),
        vec!["```rust", "  let x = 1;", "```", ""]
    );
    // fence tag and language are separate spans
    assert_eq!(lines[0].spans.len(), 2);
    assert_eq!(lines[0].spans[0].text, "```");
    assert_eq!(lines[0].spans[1].text, "rust");
    assert_eq!(lines[0].spans[1].style.fg, Some(SpanColor::Yellow));
    assert_eq!(lines[1].spans[0].style.fg, Some(SpanColor::Green));
    assert_eq!(lines[1].spans[0].style.bg, Some(SpanColor::Black));
}

#[test]
fn table_renders_five_content_lines() {
    let lines = render_source("| A | B |\n|---|---|\n| 1 | 2 |", 80);
    assert_eq!(
        texts(&lines),
        vec![
            "┌───┬───┐",
            "│ A │ B │",
            "├───┼───┤",
            "│ 1 │ 2 │",
            "└───┴───┘",
            "",
        ]
    );
    // header cells are bold yellow, data cells white, borders cyan
    assert!(lines[1].spans[1].style.bold);
    assert_eq!(lines[1].spans[1].style.fg, Some(SpanColor::Yellow));
    assert_eq!(lines[3].spans[1].style.fg, Some(SpanColor::White));
    assert_eq!(lines[0].spans[0].style.fg, Some(SpanColor::Cyan));
}

#[test]
fn table_column_width_follows_widest_cell() {
    let lines = render_source("| A | Long |\n|---|---|\n| wider | 2 |", 80);
    assert_eq!(line_text(&lines[0]), "┌───────┬──────┐");
    assert_eq!(line_text(&lines[1]), "│ A     │ Long │");
    assert_eq!(line_text(&lines[3]), "│ wider │ 2    │");
}

#[test]
fn ragged_table_rows_render_missing_cells_empty_and_drop_extras() {
    let table = MarkdownElement::Table {
        headers: vec!["A".to_string(), "B".to_string()],
        rows: vec![
            vec!["1".to_string()],
            vec!["2".to_string(), "3".to_string(), "4".to_string()],
        ],
        alignments: vec![TableAlignment::Left, TableAlignment::Left],
    };
    let lines = render(vec![table], 80);
    assert_eq!(line_text(&lines[3]), "│ 1 │   │");
    assert_eq!(line_text(&lines[4]), "│ 2 │ 3 │");
}

#[test]
fn bold_word_renders_as_one_bold_span_with_markers_stripped() {
    let lines = render(
        vec![MarkdownElement::Paragraph { text: "**bold**".to_string() }],
        80,
    );
    assert_eq!(lines[0].spans.len(), 1);
    assert_eq!(lines[0].spans[0].text, "bold");
    assert!(lines[0].spans[0].style.bold);
}

#[test]
fn multi_word_emphasis_is_not_recognised() {
    // a documented limitation: the marker pair must close within one
    // whitespace-delimited token
    let lines = render(
        vec![MarkdownElement::Paragraph { text: "**bold words**".to_string() }],
        80,
    );
    assert_eq!(lines[0].spans.len(), 3);
    assert_eq!(lines[0].spans[0].text, "**bold");
    assert!(!lines[0].spans[0].style.bold);
    assert_eq!(lines[0].spans[2].text, "words**");
    assert!(!lines[0].spans[2].style.bold);
}

#[test]
fn italic_and_code_words_are_styled_with_markers_stripped() {
    let lines = render(
        vec![MarkdownElement::Paragraph { text: "*it* `code`".to_string() }],
        80,
    );
    assert_eq!(lines[0].spans[0].text, "it");
    assert!(lines[0].spans[0].style.italic);
    assert_eq!(lines[0].spans[2].text, "code");
    assert_eq!(lines[0].spans[2].style.fg, Some(SpanColor::Green));
}

#[test]
fn paragraph_wraps_at_the_width() {
    let lines = render(
        vec![MarkdownElement::Paragraph { text: "aaaa bbbb cccc dddd eeee".to_string() }],
        10,
    );
    assert_eq!(texts(&lines), vec!["aaaa bbbb", "cccc dddd", "eeee", ""]);
}

#[test]
fn wrapped_lines_never_exceed_the_width_except_single_long_words() {
    let text = "one twotwo three4 abcdefghijklmnop x yz";
    let lines = render(vec![MarkdownElement::Paragraph { text: text.to_string() }], 8);
    for line in &lines[..lines.len() - 1] {
        let chars = line_text(line).chars().count();
        assert!(chars <= 8 || line.spans.len() == 1, "line too long: {:?}", line);
    }
}

#[test]
fn empty_paragraph_renders_one_empty_line() {
    let lines = render(vec![MarkdownElement::Paragraph { text: String::new() }], 80);
    assert_eq!(texts(&lines), vec!["", ""]);
    assert_eq!(lines[0].spans.len(), 0);
}

#[test]
fn ordered_list_renders_numbered_prefixes_in_source_order() {
    let lines = render_source("1. a\n2. b\n3. c", 80);
    assert_eq!(texts(&lines), vec!["1. a", "2. b", "3. c", ""]);
    assert_eq!(lines[0].spans[0].text, "1. ");
    assert_eq!(lines[1].spans[0].text, "2. ");
    assert_eq!(lines[2].spans[0].text, "3. ");
    assert_eq!(lines[0].spans[0].style.fg, Some(SpanColor::Yellow));
}

#[test]
fn unordered_list_renders_bullets() {
    let lines = render_source("- a\n- b\n- c", 80);
    assert_eq!(texts(&lines), vec!["• a", "• b", "• c", ""]);
}

#[test]
fn long_ordered_list_renders_two_digit_prefixes() {
    let items: Vec<String> = (0..11).map(|i| format!("i{}", i)).collect();
    let lines = render(vec![MarkdownElement::List { items, ordered: true }], 80);
    assert_eq!(line_text(&lines[9]), "10. i9");
    assert_eq!(line_text(&lines[10]), "11. i10");
}

#[test]
fn heading_renders_hashes_text_and_framing_blanks() {
    let lines = render_source("### Title", 80);
    assert_eq!(texts(&lines), vec!["### Title", ""]);
    assert_eq!(lines[0].spans[0].text, "### ");
    assert_eq!(lines[0].spans[1].text, "Title");
    assert_eq!(lines[0].spans[1].style.fg, Some(SpanColor::Green));
    assert!(lines[0].spans[1].style.bold);
}

#[test]
fn heading_after_content_is_preceded_by_exactly_one_blank_line() {
    let lines = render(
        vec![
            MarkdownElement::Text { text: "x".to_string() },
            MarkdownElement::Heading { level: 3, text: "Title".to_string() },
        ],
        80,
    );
    assert_eq!(texts(&lines), vec!["x", "", "### Title", ""]);
}

#[test]
fn first_heading_has_no_leading_blank_line() {
    let lines = render(
        vec![MarkdownElement::Heading { level: 1, text: "T".to_string() }],
        80,
    );
    assert_eq!(line_text(&lines[0]), "# T");
}

#[test]
fn heading_level_styles_differ_by_level() {
    let l1 = render(vec![MarkdownElement::Heading { level: 1, text: "a".to_string() }], 80);
    let l2 = render(vec![MarkdownElement::Heading { level: 2, text: "a".to_string() }], 80);
    let l9 = render(vec![MarkdownElement::Heading { level: 9, text: "a".to_string() }], 80);
    assert_eq!(l1[0].spans[1].style.fg, Some(SpanColor::Red));
    assert!(l1[0].spans[1].style.underlined);
    assert_eq!(l2[0].spans[1].style.fg, Some(SpanColor::Yellow));
    assert!(!l2[0].spans[1].style.underlined);
    // levels past six fall into the catch-all style bucket
    assert_eq!(l9[0].spans[1].style.fg, Some(SpanColor::Cyan));
    assert_eq!(line_text(&l9[0]), "######### a");
}

#[test]
fn inline_code_renders_with_backticks_kept() {
    let lines = render(vec![MarkdownElement::InlineCode { text: "x".to_string() }], 80);
    assert_eq!(texts(&lines), vec!["`x`"]);
    assert_eq!(lines[0].spans[0].style.fg, Some(SpanColor::Green));
}

#[test]
fn link_renders_bracketed_text_without_the_url() {
    let lines = render(
        vec![MarkdownElement::Link { text: "t".to_string(), url: "http://e.com".to_string() }],
        80,
    );
    assert_eq!(texts(&lines), vec!["[t]"]);
    assert!(lines[0].spans[0].style.underlined);
    assert_eq!(lines[0].spans[0].style.fg, Some(SpanColor::Blue));
}

#[test]
fn block_quote_renders_one_barred_line_per_embedded_line() {
    let lines = render(
        vec![MarkdownElement::BlockQuote { text: "one\ntwo".to_string() }],
        80,
    );
    assert_eq!(texts(&lines), vec!["▎ one", "▎ two", ""]);
    assert!(lines[0].spans[1].style.italic);
}

#[test]
fn rule_renders_a_sixty_glyph_divider() {
    let lines = render(vec![MarkdownElement::Rule], 80);
    assert_eq!(line_text(&lines[0]).chars().count(), 60);
    assert_eq!(texts(&lines)[1], "");
}

#[test]
fn code_block_after_content_gets_a_separating_blank_line() {
    let lines = render_source("para\n\n```\nc\n```", 80);
    assert_eq!(texts(&lines), vec!["para", "", "", "```", "  c", "```", ""]);
}

#[test]
fn text_element_renders_without_trailing_blank() {
    let lines = render(vec![MarkdownElement::Text { text: "x y".to_string() }], 80);
    assert_eq!(texts(&lines), vec!["x y"]);
}
