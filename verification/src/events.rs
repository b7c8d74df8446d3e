//! The event stream that the parser consumes.
//!
//! Tokenising markdown source is delegated to the `pulldown_cmark` crate;
//! everything it reports is carried over into the plain [`MdEvent`] type,
//! and the verified state machine in `parser` works on that alone.
use vstd::prelude::*;

use crate::elements::TableAlignment;
use pulldown_cmark::{Alignment, CodeBlockKind, Event, Options, Parser, Tag, TagEnd};

verus! {

/// One markdown token, as the parser sees it.
///
/// `CodeBlockStart` carries the fence tag as written (`None` for an
/// indented block); `ListStart` carries the start number of an ordered
/// list, if any; `TableStart` carries one alignment per column, `None`
/// where the separator row requested none.  Events of no interest to the
/// parser are carried as `Other`.
#[derive(Debug, Clone, PartialEq)]
pub enum MdEvent {
    HeadingStart(u8),
    HeadingEnd,
    ParagraphStart,
    ParagraphEnd,
    CodeBlockStart(Option<String>),
    CodeBlockEnd,
    LinkStart(String),
    LinkEnd,
    BlockQuoteStart,
    BlockQuoteEnd,
    ListStart(Option<u64>),
    ListEnd,
    ItemEnd,
    TableStart(Vec<Option<TableAlignment>>),
    TableEnd,
    TableHeadStart,
    TableHeadEnd,
    TableRowStart,
    TableRowEnd,
    TableCellEnd,
    Text(String),
    Code(String),
    Rule,
    Other,
}

/// The mathematical value of an [`MdEvent`].
#[verifier::ext_equal]
pub enum MdEventView {
    HeadingStart(u8),
    HeadingEnd,
    ParagraphStart,
    ParagraphEnd,
    CodeBlockStart(Option<Seq<char>>),
    CodeBlockEnd,
    LinkStart(Seq<char>),
    LinkEnd,
    BlockQuoteStart,
    BlockQuoteEnd,
    ListStart(Option<u64>),
    ListEnd,
    ItemEnd,
    TableStart(Seq<Option<TableAlignment>>),
    TableEnd,
    TableHeadStart,
    TableHeadEnd,
    TableRowStart,
    TableRowEnd,
    TableCellEnd,
    Text(Seq<char>),
    Code(Seq<char>),
    Rule,
    Other,
}

impl DeepView for MdEvent {
    type V = MdEventView;

    open spec fn deep_view(&self) -> MdEventView {
        match self {
            MdEvent::HeadingStart(level) => MdEventView::HeadingStart(*level),
            MdEvent::HeadingEnd => MdEventView::HeadingEnd,
            MdEvent::ParagraphStart => MdEventView::ParagraphStart,
            MdEvent::ParagraphEnd => MdEventView::ParagraphEnd,
            MdEvent::CodeBlockStart(lang) => MdEventView::CodeBlockStart(
                match lang {
                    Some(l) => Some(l@),
                    None => None,
                },
            ),
            MdEvent::CodeBlockEnd => MdEventView::CodeBlockEnd,
            MdEvent::LinkStart(url) => MdEventView::LinkStart(url@),
            MdEvent::LinkEnd => MdEventView::LinkEnd,
            MdEvent::BlockQuoteStart => MdEventView::BlockQuoteStart,
            MdEvent::BlockQuoteEnd => MdEventView::BlockQuoteEnd,
            MdEvent::ListStart(start) => MdEventView::ListStart(*start),
            MdEvent::ListEnd => MdEventView::ListEnd,
            MdEvent::ItemEnd => MdEventView::ItemEnd,
            MdEvent::TableStart(aligns) => MdEventView::TableStart(aligns@),
            MdEvent::TableEnd => MdEventView::TableEnd,
            MdEvent::TableHeadStart => MdEventView::TableHeadStart,
            MdEvent::TableHeadEnd => MdEventView::TableHeadEnd,
            MdEvent::TableRowStart => MdEventView::TableRowStart,
            MdEvent::TableRowEnd => MdEventView::TableRowEnd,
            MdEvent::TableCellEnd => MdEventView::TableCellEnd,
            MdEvent::Text(text) => MdEventView::Text(text@),
            MdEvent::Code(text) => MdEventView::Code(text@),
            MdEvent::Rule => MdEventView::Rule,
            MdEvent::Other => MdEventView::Other,
        }
    }
}

#[verifier::external_type_specification]
#[verifier::external_body]
pub struct ExEvent<'a>(Event<'a>);

#[verifier::external_type_specification]
#[verifier::external_body]
pub struct ExTag<'a>(Tag<'a>);

#[verifier::external_type_specification]
#[verifier::external_body]
pub struct ExTagEnd(TagEnd);

#[verifier::external_type_specification]
#[verifier::external_body]
pub struct ExAlignment(Alignment);

/// The event stream that the markdown tokenizer yields for a source text.
/// It is a function of the text alone.
pub uninterp spec fn events_of(s: Seq<char>) -> Seq<MdEventView>;

/// Relies on `pulldown_cmark::Alignment`: its four variants name the
/// column alignments a table separator row can request, `None` meaning
/// none was requested.
#[verifier::external_body]
fn conv_aligns(a: Vec<Alignment>) -> Vec<Option<TableAlignment>> {
    a.into_iter().map(|x| match x {
        Alignment::None => None,
        Alignment::Left => Some(TableAlignment::Left),
        Alignment::Center => Some(TableAlignment::Center),
        Alignment::Right => Some(TableAlignment::Right),
    }).collect()
}

/// Relies on `pulldown_cmark::Tag`: each opening tag read by the parser is
/// carried over variant for variant, fields moved as they stand.
#[verifier::external_body]
fn conv_start(t: Tag<'_>) -> MdEvent {
    match t {
        Tag::Heading { level, .. } => MdEvent::HeadingStart(level as u8),
        Tag::Paragraph => MdEvent::ParagraphStart,
        Tag::CodeBlock(CodeBlockKind::Fenced(l)) => MdEvent::CodeBlockStart(Some(l.to_string())),
        Tag::CodeBlock(CodeBlockKind::Indented) => MdEvent::CodeBlockStart(None),
        Tag::Link { dest_url, .. } => MdEvent::LinkStart(dest_url.to_string()),
        Tag::BlockQuote(_) => MdEvent::BlockQuoteStart,
        Tag::List(start) => MdEvent::ListStart(start),
        Tag::Table(a) => MdEvent::TableStart(conv_aligns(a)),
        Tag::TableHead => MdEvent::TableHeadStart,
        Tag::TableRow => MdEvent::TableRowStart,
        _ => MdEvent::Other,
    }
}

/// Relies on `pulldown_cmark::TagEnd`: each closing tag read by the parser
/// is carried over variant for variant.
#[verifier::external_body]
fn conv_end(t: TagEnd) -> MdEvent {
    match t {
        TagEnd::Heading(_) => MdEvent::HeadingEnd,
        TagEnd::Paragraph => MdEvent::ParagraphEnd,
        TagEnd::CodeBlock => MdEvent::CodeBlockEnd,
        TagEnd::Link => MdEvent::LinkEnd,
        TagEnd::BlockQuote(_) => MdEvent::BlockQuoteEnd,
        TagEnd::List(_) => MdEvent::ListEnd,
        TagEnd::Item => MdEvent::ItemEnd,
        TagEnd::Table => MdEvent::TableEnd,
        TagEnd::TableHead => MdEvent::TableHeadEnd,
        TagEnd::TableRow => MdEvent::TableRowEnd,
        TagEnd::TableCell => MdEvent::TableCellEnd,
        _ => MdEvent::Other,
    }
}

/// Relies on `pulldown_cmark::Event`: each event is carried over variant
/// for variant, its text copied out.
#[verifier::external_body]
fn conv_event(e: Event<'_>) -> MdEvent {
    match e {
        Event::Start(t) => conv_start(t),
        Event::End(t) => conv_end(t),
        Event::Text(s) => MdEvent::Text(s.to_string()),
        Event::Code(s) => MdEvent::Code(s.to_string()),
        Event::Rule => MdEvent::Rule,
        _ => MdEvent::Other,
    }
}

/// Relies on `pulldown_cmark::Parser::new_ext` (tables and strikethrough
/// enabled): the event stream is deterministic in the source text, and an
/// empty source yields no events.
#[verifier::external_body]
pub(crate) fn md_events(src: &str) -> (evs: Vec<MdEvent>)
    ensures
        evs.deep_view() == events_of(src@),
        src@.len() == 0 ==> evs.deep_view() =~= Seq::<MdEventView>::empty(),
{
    let mut opts = Options::empty();
    opts.insert(Options::ENABLE_TABLES);
    opts.insert(Options::ENABLE_STRIKETHROUGH);
    let mut evs: Vec<MdEvent> = Vec::new();
    for e in Parser::new_ext(src, opts) {
        evs.push(conv_event(e));
    }
    evs
}

} // verus!
