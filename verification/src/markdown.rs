//! The markdown rendering pipeline: parse source text into elements,
//! render elements into styled display lines.
use vstd::prelude::*;

use crate::elements::{ElementView, MarkdownElement};
use crate::events::{events_of, md_events};
use crate::parser::{elements_from_events, lemma_parse_no_events, spec_parse};
use crate::render::{render_elements, spec_render};
use crate::style::StyledLine;

verus! {

/// The error a parse may report.  The parser never fails in practice —
/// malformed markdown degrades to plain text elements — but the channel
/// is kept so a host can fall back to verbatim lines if it ever did.
#[derive(Debug, Clone, PartialEq, Eq)]
pub struct ParseError {}

/// The markdown rendering pipeline.  It holds no per-document state:
/// each call is independent, and both passes are pure.
pub struct MarkdownRenderer {}

impl MarkdownRenderer {
    pub fn new() -> (r: MarkdownRenderer) {
        MarkdownRenderer {  }
    }

    /// Parse markdown source into an ordered sequence of typed elements.
    ///
    /// The result is exactly what the parser state machine yields for
    /// the token stream of the source; it is always `Ok`, and an empty
    /// source parses to no elements at all.
    pub fn parse_markdown(&self, markdown: &str) -> (r: Result<Vec<MarkdownElement>, ParseError>)
        ensures
            r matches Ok(elts) && elts.deep_view() == spec_parse(events_of(markdown@)),
            markdown@.len() == 0 ==> spec_parse(events_of(markdown@)) =~= Seq::<
                ElementView,
            >::empty(),
    {
        let events = md_events(markdown);
        let elements = elements_from_events(&events);
        proof {
            if markdown@.len() == 0 {
                lemma_parse_no_events(events.deep_view());
            }
        }
        Ok(elements)
    }

    /// Render elements into styled display lines, word-wrapped at the
    /// given width.  Rendering no elements yields no lines.
    pub fn render_to_text(&self, elements: &Vec<MarkdownElement>, width: usize) -> (r: Vec<
        StyledLine,
    >)
        ensures
            r.deep_view() == spec_render(elements.deep_view(), width as int),
    {
        render_elements(elements, width)
    }
}

impl Default for MarkdownRenderer {
    fn default() -> (r: MarkdownRenderer) {
        MarkdownRenderer::new()
    }
}

} // verus!
