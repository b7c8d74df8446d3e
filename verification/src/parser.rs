//! The parser: a state machine that folds a markdown event stream into
//! the ordered sequence of typed elements.
use vstd::prelude::*;

use crate::elements::{ElementView, MarkdownElement, TableAlignment};
use crate::events::{MdEvent, MdEventView};
use crate::text::{
    chars_of, push_chars, spec_trim, spec_trim_back, string_from_chars, trim_back_chars,
    trim_chars,
};

verus! {

/// The parser's full state between two events.
#[verifier::ext_equal]
pub struct ParseState {
    /// Elements emitted so far, in source order.
    pub elements: Seq<ElementView>,
    /// The accumulating text buffer.
    pub text: Seq<char>,
    /// Level of the heading being read, if any.
    pub heading: Option<u8>,
    pub in_paragraph: bool,
    pub in_code: bool,
    /// Language tag of the code block being read.
    pub lang: Option<Seq<char>>,
    /// Destination of the link being read.
    pub link_url: Seq<char>,
    pub in_quote: bool,
    pub in_list: bool,
    /// Whether the list being read is ordered.
    pub ordered: bool,
    /// Items of the list being read.
    pub items: Seq<Seq<char>>,
    pub in_table: bool,
    /// Header cells of the table being read.
    pub headers: Seq<Seq<char>>,
    /// Data rows of the table being read.
    pub rows: Seq<Seq<Seq<char>>>,
    /// Cells of the row being read.
    pub row: Seq<Seq<char>>,
    /// Column alignments of the table being read.
    pub aligns: Seq<TableAlignment>,
}

/// The state before any event.
pub open spec fn init_state() -> ParseState {
    ParseState {
        elements: Seq::empty(),
        text: Seq::empty(),
        heading: None,
        in_paragraph: false,
        in_code: false,
        lang: None,
        link_url: Seq::empty(),
        in_quote: false,
        in_list: false,
        ordered: false,
        items: Seq::empty(),
        in_table: false,
        headers: Seq::empty(),
        rows: Seq::empty(),
        row: Seq::empty(),
        aligns: Seq::empty(),
    }
}

/// A fence tag becomes a language label unless it is empty.
pub open spec fn spec_lang_of(tag: Option<Seq<char>>) -> Option<Seq<char>> {
    match tag {
        Some(l) => if l.len() > 0 {
            Some(l)
        } else {
            None
        },
        None => None,
    }
}

/// A column with no requested alignment is aligned left.
pub open spec fn spec_default_aligns(a: Seq<Option<TableAlignment>>) -> Seq<TableAlignment> {
    Seq::new(
        a.len(),
        |i: int|
            match a[i] {
                Some(x) => x,
                None => TableAlignment::Left,
            },
    )
}

/// A finished table row becomes the header row if none is stored yet,
/// else one more data row.
pub open spec fn step_row_end(st: ParseState) -> ParseState {
    if st.in_table {
        if st.headers.len() == 0 {
            ParseState { headers: st.row, row: Seq::empty(), ..st }
        } else {
            ParseState { rows: st.rows.push(st.row), row: Seq::empty(), ..st }
        }
    } else {
        st
    }
}

/// How one event transforms the parser state.
pub open spec fn step_state(st: ParseState, e: MdEventView) -> ParseState {
    match e {
        MdEventView::HeadingStart(level) => {
            let st1 = if st.in_paragraph {
                ParseState {
                    elements: st.elements.push(ElementView::Paragraph { text: spec_trim(st.text) }),
                    text: Seq::empty(),
                    in_paragraph: false,
                    ..st
                }
            } else {
                st
            };
            ParseState { heading: Some(level), ..st1 }
        },
        MdEventView::HeadingEnd => match st.heading {
            Some(level) => ParseState {
                elements: st.elements.push(
                    ElementView::Heading { level, text: spec_trim(st.text) },
                ),
                text: Seq::empty(),
                heading: None,
                ..st
            },
            None => st,
        },
        MdEventView::ParagraphStart => {
            if !st.in_list && !st.in_quote {
                ParseState { in_paragraph: true, ..st }
            } else {
                st
            }
        },
        MdEventView::ParagraphEnd => {
            if st.in_paragraph {
                ParseState {
                    elements: st.elements.push(ElementView::Paragraph { text: spec_trim(st.text) }),
                    text: Seq::empty(),
                    in_paragraph: false,
                    ..st
                }
            } else if st.in_list && spec_trim(st.text).len() > 0 {
                ParseState { items: st.items.push(spec_trim(st.text)), text: Seq::empty(), ..st }
            } else if st.in_quote {
                ParseState {
                    elements: st.elements.push(
                        ElementView::BlockQuote { text: spec_trim(st.text) },
                    ),
                    text: Seq::empty(),
                    ..st
                }
            } else {
                st
            }
        },
        MdEventView::CodeBlockStart(tag) => ParseState {
            in_code: true,
            lang: spec_lang_of(tag),
            ..st
        },
        MdEventView::CodeBlockEnd => ParseState {
            elements: st.elements.push(
                ElementView::CodeBlock { language: st.lang, code: spec_trim_back(st.text) },
            ),
            text: Seq::empty(),
            in_code: false,
            lang: None,
            ..st
        },
        MdEventView::LinkStart(url) => ParseState { link_url: url, ..st },
        MdEventView::LinkEnd => ParseState {
            elements: st.elements.push(ElementView::Link { text: st.text, url: st.link_url }),
            text: Seq::empty(),
            link_url: Seq::empty(),
            ..st
        },
        MdEventView::BlockQuoteStart => ParseState { in_quote: true, ..st },
        MdEventView::BlockQuoteEnd => ParseState { in_quote: false, ..st },
        MdEventView::ListStart(start) => ParseState {
            in_list: true,
            ordered: start is Some,
            items: Seq::empty(),
            ..st
        },
        MdEventView::ListEnd => {
            let st1 = if st.items.len() > 0 {
                ParseState {
                    elements: st.elements.push(
                        ElementView::List { items: st.items, ordered: st.ordered },
                    ),
                    items: Seq::empty(),
                    ..st
                }
            } else {
                st
            };
            ParseState { in_list: false, ..st1 }
        },
        MdEventView::ItemEnd => {
            if spec_trim(st.text).len() > 0 {
                ParseState { items: st.items.push(spec_trim(st.text)), text: Seq::empty(), ..st }
            } else {
                st
            }
        },
        MdEventView::TableStart(aligns) => ParseState {
            in_table: true,
            aligns: spec_default_aligns(aligns),
            headers: Seq::empty(),
            rows: Seq::empty(),
            ..st
        },
        MdEventView::TableEnd => {
            if st.in_table {
                ParseState {
                    elements: st.elements.push(
                        ElementView::Table {
                            headers: st.headers,
                            rows: st.rows,
                            alignments: st.aligns,
                        },
                    ),
                    in_table: false,
                    headers: Seq::empty(),
                    rows: Seq::empty(),
                    aligns: Seq::empty(),
                    ..st
                }
            } else {
                st
            }
        },
        MdEventView::TableHeadStart => ParseState { row: Seq::empty(), ..st },
        MdEventView::TableHeadEnd => step_row_end(st),
        MdEventView::TableRowStart => ParseState { row: Seq::empty(), ..st },
        MdEventView::TableRowEnd => step_row_end(st),
        MdEventView::TableCellEnd => {
            if st.in_table {
                ParseState { row: st.row.push(spec_trim(st.text)), text: Seq::empty(), ..st }
            } else {
                st
            }
        },
        MdEventView::Text(s) => ParseState { text: st.text + s, ..st },
        MdEventView::Code(s) => {
            if !st.in_code {
                ParseState { elements: st.elements.push(ElementView::InlineCode { text: s }), ..st }
            } else {
                ParseState { text: st.text + s, ..st }
            }
        },
        MdEventView::Rule => ParseState { elements: st.elements.push(ElementView::Rule), ..st },
        MdEventView::Other => st,
    }
}

/// The state after a whole event sequence.
pub open spec fn run_events(evs: Seq<MdEventView>) -> ParseState
    decreases evs.len(),
{
    if evs.len() == 0 {
        init_state()
    } else {
        step_state(run_events(evs.drop_last()), evs.last())
    }
}

/// Flush what remains buffered when the input is exhausted: an open
/// paragraph becomes a final `Paragraph`, other residual text becomes a
/// `Text` element, except inside an unclosed list, where it is dropped.
pub open spec fn finish_state(st: ParseState) -> Seq<ElementView> {
    if spec_trim(st.text).len() > 0 {
        if st.in_paragraph {
            st.elements.push(ElementView::Paragraph { text: spec_trim(st.text) })
        } else if !st.in_list {
            st.elements.push(ElementView::Text { text: spec_trim(st.text) })
        } else {
            st.elements
        }
    } else {
        st.elements
    }
}

/// The elements that a whole event sequence parses to.
pub open spec fn spec_parse(evs: Seq<MdEventView>) -> Seq<ElementView> {
    finish_state(run_events(evs))
}

/// Parsing no events yields no elements.
pub proof fn lemma_parse_no_events(evs: Seq<MdEventView>)
    requires
        evs.len() == 0,
    ensures
        spec_parse(evs) =~= Seq::<ElementView>::empty(),
{
    assert(run_events(evs) == init_state());
    assert(spec_trim(Seq::<char>::empty()).len() == 0);
}

/// The executable parser state; its view is a [`ParseState`].
struct Machine {
    elements: Vec<MarkdownElement>,
    text: Vec<char>,
    heading: Option<u8>,
    in_paragraph: bool,
    in_code: bool,
    lang: Option<String>,
    link_url: Vec<char>,
    in_quote: bool,
    in_list: bool,
    ordered: bool,
    items: Vec<String>,
    in_table: bool,
    headers: Vec<String>,
    rows: Vec<Vec<String>>,
    row: Vec<String>,
    aligns: Vec<TableAlignment>,
}

impl Machine {
    spec fn view(&self) -> ParseState {
        ParseState {
            elements: self.elements.deep_view(),
            text: self.text@,
            heading: self.heading,
            in_paragraph: self.in_paragraph,
            in_code: self.in_code,
            lang: self.lang.deep_view(),
            link_url: self.link_url@,
            in_quote: self.in_quote,
            in_list: self.in_list,
            ordered: self.ordered,
            items: self.items.deep_view(),
            in_table: self.in_table,
            headers: self.headers.deep_view(),
            rows: self.rows.deep_view(),
            row: self.row.deep_view(),
            aligns: self.aligns@,
        }
    }

    fn new() -> (m: Machine)
        ensures
            m.view() == init_state(),
    {
        let m = Machine {
            elements: Vec::new(),
            text: Vec::new(),
            heading: None,
            in_paragraph: false,
            in_code: false,
            lang: None,
            link_url: Vec::new(),
            in_quote: false,
            in_list: false,
            ordered: false,
            items: Vec::new(),
            in_table: false,
            headers: Vec::new(),
            rows: Vec::new(),
            row: Vec::new(),
            aligns: Vec::new(),
        };
        proof {
            assert(m.view() =~~= init_state());
        }
        m
    }

    /// The trimmed text buffer as a `String`.
    fn trimmed_text(&self) -> (r: String)
        ensures
            r@ == spec_trim(self.text@),
    {
        let t = trim_chars(&self.text);
        string_from_chars(&t)
    }

    /// Store a finished table row.
    fn row_end(&mut self)
        ensures
            final(self).view() == step_row_end(old(self).view()),
    {
        if self.in_table {
            let mut row: Vec<String> = Vec::new();
            core::mem::swap(&mut row, &mut self.row);
            if self.headers.len() == 0 {
                self.headers = row;
                proof {
                    assert(self.view() =~~= step_row_end(old(self).view()));
                }
            } else {
                self.rows.push(row);
                proof {
                    assert(self.view() =~~= step_row_end(old(self).view()));
                }
            }
        }
        proof {
            assert(self.view() =~~= step_row_end(old(self).view()));
        }
    }

    /// Advance the state by one event.
    #[verifier::rlimit(100)]
    fn step(&mut self, e: &MdEvent)
        ensures
            final(self).view() == step_state(old(self).view(), e.deep_view()),
    {
        match e {
            MdEvent::HeadingStart(level) => {
                if self.in_paragraph {
                    let t = self.trimmed_text();
                    self.elements.push(MarkdownElement::Paragraph { text: t });
                    self.text = Vec::new();
                    self.in_paragraph = false;
                }
                self.heading = Some(*level);
                proof {
                    assert(self.view() =~~= step_state(old(self).view(), e.deep_view()));
                }
            },
            MdEvent::HeadingEnd => {
                match self.heading {
                    Some(level) => {
                        let t = self.trimmed_text();
                        self.elements.push(MarkdownElement::Heading { level, text: t });
                        self.text = Vec::new();
                        self.heading = None;
                    },
                    None => {},
                }
                proof {
                    assert(self.view() =~~= step_state(old(self).view(), e.deep_view()));
                }
            },
            MdEvent::ParagraphStart => {
                if !self.in_list && !self.in_quote {
                    self.in_paragraph = true;
                }
                proof {
                    assert(self.view() =~~= step_state(old(self).view(), e.deep_view()));
                }
            },
            MdEvent::ParagraphEnd => {
                if self.in_paragraph {
                    let t = self.trimmed_text();
                    self.elements.push(MarkdownElement::Paragraph { text: t });
                    self.text = Vec::new();
                    self.in_paragraph = false;
                } else {
                    let t = self.trimmed_text();
                    if self.in_list && t.as_str().unicode_len() > 0 {
                        self.items.push(t);
                        self.text = Vec::new();
                    } else if self.in_quote {
                        self.elements.push(MarkdownElement::BlockQuote { text: t });
                        self.text = Vec::new();
                    }
                }
                proof {
                    assert(self.view() =~~= step_state(old(self).view(), e.deep_view()));
                }
            },
            MdEvent::CodeBlockStart(tag) => {
                self.in_code = true;
                self.lang = match tag {
                    Some(l) => if l.as_str().unicode_len() > 0 {
                        Some(l.clone())
                    } else {
                        None
                    },
                    None => None,
                };
                proof {
                    assert(self.view() =~~= step_state(old(self).view(), e.deep_view()));
                }
            },
            MdEvent::CodeBlockEnd => {
                let t = trim_back_chars(&self.text);
                let code = string_from_chars(&t);
                let language = self.lang.take();
                self.elements.push(MarkdownElement::CodeBlock { language, code });
                self.text = Vec::new();
                self.in_code = false;
                proof {
                    assert(self.view() =~~= step_state(old(self).view(), e.deep_view()));
                }
            },
            MdEvent::LinkStart(url) => {
                self.link_url = chars_of(url.as_str());
                proof {
                    assert(self.view() =~~= step_state(old(self).view(), e.deep_view()));
                }
            },
            MdEvent::LinkEnd => {
                let text = string_from_chars(&self.text);
                let url = string_from_chars(&self.link_url);
                self.elements.push(MarkdownElement::Link { text, url });
                self.text = Vec::new();
                self.link_url = Vec::new();
                proof {
                    assert(self.view() =~~= step_state(old(self).view(), e.deep_view()));
                }
            },
            MdEvent::BlockQuoteStart => {
                self.in_quote = true;
                proof {
                    assert(self.view() =~~= step_state(old(self).view(), e.deep_view()));
                }
            },
            MdEvent::BlockQuoteEnd => {
                self.in_quote = false;
                proof {
                    assert(self.view() =~~= step_state(old(self).view(), e.deep_view()));
                }
            },
            MdEvent::ListStart(start) => {
                self.in_list = true;
                self.ordered = start.is_some();
                self.items = Vec::new();
                proof {
                    assert(self.view() =~~= step_state(old(self).view(), e.deep_view()));
                }
            },
            MdEvent::ListEnd => {
                if self.items.len() > 0 {
                    let mut items: Vec<String> = Vec::new();
                    core::mem::swap(&mut items, &mut self.items);
                    self.elements.push(
                        MarkdownElement::List { items, ordered: self.ordered },
                    );
                }
                self.in_list = false;
                proof {
                    assert(self.view() =~~= step_state(old(self).view(), e.deep_view()));
                }
            },
            MdEvent::ItemEnd => {
                let t = self.trimmed_text();
                if t.as_str().unicode_len() > 0 {
                    self.items.push(t);
                    self.text = Vec::new();
                }
                proof {
                    assert(self.view() =~~= step_state(old(self).view(), e.deep_view()));
                }
            },
            MdEvent::TableStart(aligns) => {
                self.in_table = true;
                self.aligns = default_aligns(aligns);
                self.headers = Vec::new();
                self.rows = Vec::new();
                proof {
                    assert(self.view() =~~= step_state(old(self).view(), e.deep_view()));
                }
            },
            MdEvent::TableEnd => {
                if self.in_table {
                    let mut headers: Vec<String> = Vec::new();
                    let mut rows: Vec<Vec<String>> = Vec::new();
                    let mut alignments: Vec<TableAlignment> = Vec::new();
                    core::mem::swap(&mut headers, &mut self.headers);
                    core::mem::swap(&mut rows, &mut self.rows);
                    core::mem::swap(&mut alignments, &mut self.aligns);
                    self.elements.push(MarkdownElement::Table { headers, rows, alignments });
                    self.in_table = false;
                }
                proof {
                    assert(self.view() =~~= step_state(old(self).view(), e.deep_view()));
                }
            },
            MdEvent::TableHeadStart => {
                self.row = Vec::new();
                proof {
                    assert(self.view() =~~= step_state(old(self).view(), e.deep_view()));
                }
            },
            MdEvent::TableHeadEnd => {
                self.row_end();
                proof {
                    assert(self.view() =~~= step_state(old(self).view(), e.deep_view()));
                }
            },
            MdEvent::TableRowStart => {
                self.row = Vec::new();
                proof {
                    assert(self.view() =~~= step_state(old(self).view(), e.deep_view()));
                }
            },
            MdEvent::TableRowEnd => {
                self.row_end();
                proof {
                    assert(self.view() =~~= step_state(old(self).view(), e.deep_view()));
                }
            },
            MdEvent::TableCellEnd => {
                if self.in_table {
                    let t = self.trimmed_text();
                    self.row.push(t);
                    self.text = Vec::new();
                }
                proof {
                    assert(self.view() =~~= step_state(old(self).view(), e.deep_view()));
                }
            },
            MdEvent::Text(s) => {
                let cs = chars_of(s.as_str());
                push_chars(&mut self.text, &cs);
                proof {
                    assert(self.view() =~~= step_state(old(self).view(), e.deep_view()));
                }
            },
            MdEvent::Code(s) => {
                if !self.in_code {
                    self.elements.push(MarkdownElement::InlineCode { text: s.clone() });
                } else {
                    let cs = chars_of(s.as_str());
                    push_chars(&mut self.text, &cs);
                }
                proof {
                    assert(self.view() =~~= step_state(old(self).view(), e.deep_view()));
                }
            },
            MdEvent::Rule => {
                self.elements.push(MarkdownElement::Rule);
                proof {
                    assert(self.view() =~~= step_state(old(self).view(), e.deep_view()));
                }
            },
            MdEvent::Other => {
                proof {
                    assert(self.view() =~~= step_state(old(self).view(), e.deep_view()));
                }
            },
        }
    }

    /// Flush the residual text buffer and hand the elements out.
    fn finish(self) -> (r: Vec<MarkdownElement>)
        ensures
            r.deep_view() == finish_state(self.view()),
    {
        let mut elements = self.elements;
        let t = trim_chars(&self.text);
        if t.len() > 0 {
            let text = string_from_chars(&t);
            if self.in_paragraph {
                elements.push(MarkdownElement::Paragraph { text });
            } else if !self.in_list {
                elements.push(MarkdownElement::Text { text });
            }
        }
        proof {
            assert(elements.deep_view() =~~= finish_state(self.view()));
        }
        elements
    }
}

/// Replace each missing column alignment by `Left`.
fn default_aligns(a: &Vec<Option<TableAlignment>>) -> (r: Vec<TableAlignment>)
    ensures
        r@ == spec_default_aligns(a@),
{
    let mut r: Vec<TableAlignment> = Vec::new();
    let mut i: usize = 0;
    while i < a.len()
        invariant
            i <= a@.len(),
            r@ == spec_default_aligns(a@.take(i as int)),
        decreases a@.len() - i,
    {
        let x = match a[i] {
            Some(x) => x,
            None => TableAlignment::Left,
        };
        r.push(x);
        i = i + 1;
        proof {
            assert(r@ =~= spec_default_aligns(a@.take(i as int)));
        }
    }
    proof {
        assert(a@.take(a@.len() as int) =~= a@);
    }
    r
}

/// Fold a whole event sequence into elements.
///
/// This is the parser proper: the result is exactly what the state
/// machine's specification says for the given events.
pub fn elements_from_events(events: &Vec<MdEvent>) -> (r: Vec<MarkdownElement>)
    ensures
        r.deep_view() == spec_parse(events.deep_view()),
{
    let mut m = Machine::new();
    let mut i: usize = 0;
    proof {
        assert(events.deep_view().take(0) =~= Seq::<MdEventView>::empty());
    }
    while i < events.len()
        invariant
            i <= events@.len(),
            m.view() == run_events(events.deep_view().take(i as int)),
        decreases events@.len() - i,
    {
        m.step(&events[i]);
        i = i + 1;
        proof {
            let evs = events.deep_view();
            assert(evs.take(i as int).drop_last() =~= evs.take(i as int - 1));
            assert(evs.take(i as int).last() == evs[i as int - 1]);
        }
    }
    proof {
        assert(events.deep_view().take(events@.len() as int) =~= events.deep_view());
    }
    m.finish()
}

} // verus!
