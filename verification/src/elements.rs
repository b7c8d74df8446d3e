//! The typed elements that the parser produces.
use vstd::prelude::*;

verus! {

/// Column alignment of a table, as requested by its separator row.
#[derive(Debug, Clone, Copy, PartialEq, Eq)]
pub enum TableAlignment {
    Left,
    Center,
    Right,
}

impl DeepView for TableAlignment {
    type V = TableAlignment;

    open spec fn deep_view(&self) -> TableAlignment {
        *self
    }
}

/// One semantic unit of parsed markdown, in source order.
#[derive(Debug, Clone, PartialEq)]
pub enum MarkdownElement {
    Heading { level: u8, text: String },
    Paragraph { text: String },
    CodeBlock { language: Option<String>, code: String },
    InlineCode { text: String },
    Link { text: String, url: String },
    List { items: Vec<String>, ordered: bool },
    BlockQuote { text: String },
    Rule,
    Text { text: String },
    Table { headers: Vec<String>, rows: Vec<Vec<String>>, alignments: Vec<TableAlignment> },
}

/// The mathematical value of a `MarkdownElement`: every text is a
/// sequence of characters.
#[verifier::ext_equal]
pub enum ElementView {
    Heading { level: u8, text: Seq<char> },
    Paragraph { text: Seq<char> },
    CodeBlock { language: Option<Seq<char>>, code: Seq<char> },
    InlineCode { text: Seq<char> },
    Link { text: Seq<char>, url: Seq<char> },
    List { items: Seq<Seq<char>>, ordered: bool },
    BlockQuote { text: Seq<char> },
    Rule,
    Text { text: Seq<char> },
    Table { headers: Seq<Seq<char>>, rows: Seq<Seq<Seq<char>>>, alignments: Seq<TableAlignment> },
}

impl DeepView for MarkdownElement {
    type V = ElementView;

    open spec fn deep_view(&self) -> ElementView {
        match self {
            MarkdownElement::Heading { level, text } => ElementView::Heading {
                level: *level,
                text: text@,
            },
            MarkdownElement::Paragraph { text } => ElementView::Paragraph { text: text@ },
            MarkdownElement::CodeBlock { language, code } => ElementView::CodeBlock {
                language: match language {
                    Some(l) => Some(l@),
                    None => None,
                },
                code: code@,
            },
            MarkdownElement::InlineCode { text } => ElementView::InlineCode { text: text@ },
            MarkdownElement::Link { text, url } => ElementView::Link { text: text@, url: url@ },
            MarkdownElement::List { items, ordered } => ElementView::List {
                items: items.deep_view(),
                ordered: *ordered,
            },
            MarkdownElement::BlockQuote { text } => ElementView::BlockQuote { text: text@ },
            MarkdownElement::Rule => ElementView::Rule,
            MarkdownElement::Text { text } => ElementView::Text { text: text@ },
            MarkdownElement::Table { headers, rows, alignments } => ElementView::Table {
                headers: headers.deep_view(),
                rows: rows.deep_view(),
                alignments: alignments@,
            },
        }
    }
}

} // verus!
