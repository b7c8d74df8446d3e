//! The renderer: elements in, styled display lines out.
//!
//! Every element contributes at least one line; headings, code blocks
//! and tables are preceded by one blank line unless they open the
//! document, and most elements are followed by one.
use vstd::prelude::*;

use crate::elements::{ElementView, MarkdownElement};
use crate::style::{
    style_code, style_frame, style_heading, style_lang, style_link, style_list_prefix,
    style_plain, style_quote_bar, style_quote_text, style_table_border, style_table_cell,
    style_table_header, SpanStyle, SpanView, StyledLine, StyledSpan,
};
use crate::text::{
    chars_of, decimal_chars, push_chars, repeat_char, spec_decimal, spec_lines, spec_repeat,
    split_lines, string_from_chars,
};
use crate::wrap::{spec_wrap, wrap_text};

verus! {

/// One blank separator line.
pub open spec fn spec_blank() -> Seq<SpanView> {
    Seq::empty()
}

/// A blank line before an element, unless it opens the document.
pub open spec fn spec_blank_before(first: bool) -> Seq<Seq<SpanView>> {
    if first {
        Seq::empty()
    } else {
        seq![spec_blank()]
    }
}

/// The `"#"` run and blank that precede a heading's text.
pub open spec fn spec_heading_prefix(level: u8) -> Seq<char> {
    spec_repeat('#', level as nat).push(' ')
}

/// A heading: its hash prefix and its text, framed by blank lines.
pub open spec fn spec_render_heading(level: u8, text: Seq<char>, first: bool) -> Seq<
    Seq<SpanView>,
> {
    spec_blank_before(first) + seq![
        seq![
            SpanView { text: spec_heading_prefix(level), style: style_frame() },
            SpanView { text, style: style_heading(level) },
        ],
        spec_blank(),
    ]
}

/// The three-backtick fence, with the language label if one is known.
pub open spec fn spec_fence_line(lang: Option<Seq<char>>) -> Seq<SpanView> {
    match lang {
        Some(l) => seq![
            SpanView { text: seq!['`', '`', '`'], style: style_frame() },
            SpanView { text: l, style: style_lang() },
        ],
        None => seq![SpanView { text: seq!['`', '`', '`'], style: style_frame() }],
    }
}

/// The body of a code block: each line indented by two blanks.
pub open spec fn spec_code_lines(code: Seq<char>) -> Seq<Seq<SpanView>> {
    Seq::new(
        spec_lines(code).len(),
        |i: int| seq![
            SpanView { text: seq![' ', ' '] + spec_lines(code)[i], style: style_code() },
        ],
    )
}

/// A code block: fence, indented body, fence, framed by blank lines.
pub open spec fn spec_render_code_block(
    lang: Option<Seq<char>>,
    code: Seq<char>,
    first: bool,
) -> Seq<Seq<SpanView>> {
    spec_blank_before(first) + seq![spec_fence_line(lang)] + spec_code_lines(code) + seq![
        spec_fence_line(None),
        spec_blank(),
    ]
}

/// An inline code fragment: one line, backticks kept.
pub open spec fn spec_render_inline_code(text: Seq<char>) -> Seq<Seq<SpanView>> {
    seq![seq![SpanView { text: seq!['`'] + text + seq!['`'], style: style_code() }]]
}

/// A link: one line holding the bracketed link text; the target is not
/// printed.
pub open spec fn spec_render_link(text: Seq<char>) -> Seq<Seq<SpanView>> {
    seq![seq![SpanView { text: seq!['['] + text + seq![']'], style: style_link() }]]
}

/// The prefix of the item at position `i`: `"1. "`, `"2. "`, ... for an
/// ordered list, a bullet for an unordered one.
pub open spec fn spec_list_prefix(ordered: bool, i: int) -> Seq<char> {
    if ordered {
        spec_decimal((i + 1) as nat) + seq!['.', ' ']
    } else {
        seq!['•', ' ']
    }
}

/// A list: one line per item in source order, then a blank line.
pub open spec fn spec_render_list(items: Seq<Seq<char>>, ordered: bool) -> Seq<Seq<SpanView>> {
    Seq::new(
        items.len(),
        |i: int| seq![
            SpanView { text: spec_list_prefix(ordered, i), style: style_list_prefix() },
            SpanView { text: items[i], style: style_plain() },
        ],
    ) + seq![spec_blank()]
}

/// A block quote: one barred line per embedded source line, then a
/// blank line.
pub open spec fn spec_render_quote(text: Seq<char>) -> Seq<Seq<SpanView>> {
    Seq::new(
        spec_lines(text).len(),
        |i: int| seq![
            SpanView { text: seq!['▎', ' '], style: style_quote_bar() },
            SpanView { text: spec_lines(text)[i], style: style_quote_text() },
        ],
    ) + seq![spec_blank()]
}

/// A horizontal rule: a fixed sixty-glyph divider, then a blank line.
pub open spec fn spec_render_rule() -> Seq<Seq<SpanView>> {
    seq![
        seq![SpanView { text: spec_repeat('─', 60), style: style_frame() }],
        spec_blank(),
    ]
}

/// The cell of a row at column `j`; a missing cell reads as empty.
pub open spec fn spec_cell(row: Seq<Seq<char>>, j: int) -> Seq<char> {
    if 0 <= j < row.len() {
        row[j]
    } else {
        Seq::empty()
    }
}

/// The widest data cell of column `j`.
pub open spec fn spec_rows_col_max(rows: Seq<Seq<Seq<char>>>, j: int) -> int
    decreases rows.len(),
{
    if rows.len() == 0 {
        0
    } else {
        let rest = spec_rows_col_max(rows.drop_last(), j);
        let last = spec_cell(rows.last(), j).len() as int;
        if last > rest {
            last
        } else {
            rest
        }
    }
}

/// The width of column `j`: its widest cell (header included) plus one
/// blank of padding on each side, capped at the machine limit.
pub open spec fn spec_col_w(headers: Seq<Seq<char>>, rows: Seq<Seq<Seq<char>>>, j: int) -> int {
    let m = if headers[j].len() as int > spec_rows_col_max(rows, j) {
        headers[j].len() as int
    } else {
        spec_rows_col_max(rows, j)
    };
    if m + 2 <= usize::MAX as int {
        m + 2
    } else {
        usize::MAX as int
    }
}

/// A span holding one table border glyph.
pub open spec fn spec_border_glyph(c: char) -> SpanView {
    SpanView { text: seq![c], style: style_table_border() }
}

/// The inner spans of a border line, from column `j` on: a dash run per
/// column, a joint between neighbours.
pub open spec fn spec_border_mid(
    headers: Seq<Seq<char>>,
    rows: Seq<Seq<Seq<char>>>,
    j: int,
    mid: char,
) -> Seq<SpanView>
    decreases headers.len() - j,
{
    if j < 0 || j >= headers.len() {
        Seq::empty()
    } else {
        seq![
            SpanView {
                text: spec_repeat('─', spec_col_w(headers, rows, j) as nat),
                style: style_table_border(),
            },
        ] + (if j < headers.len() - 1 {
            seq![spec_border_glyph(mid)]
        } else {
            Seq::empty()
        }) + spec_border_mid(headers, rows, j + 1, mid)
    }
}

/// A whole border line.
pub open spec fn spec_border_line(
    headers: Seq<Seq<char>>,
    rows: Seq<Seq<Seq<char>>>,
    left: char,
    mid: char,
    right: char,
) -> Seq<SpanView> {
    seq![spec_border_glyph(left)] + spec_border_mid(headers, rows, 0, mid) + seq![
        spec_border_glyph(right),
    ]
}

/// A cell padded for display: one leading blank, then the text
/// left-justified to one less than the column width.
pub open spec fn spec_pad_cell(text: Seq<char>, w: int) -> Seq<char> {
    seq![' '] + text + (if text.len() as int <= w - 1 {
        spec_repeat(' ', (w - 1 - text.len()) as nat)
    } else {
        Seq::empty()
    })
}

/// The spans of one table row from column `j` on: each padded cell
/// followed by a border bar.
pub open spec fn spec_row_mid(
    row: Seq<Seq<char>>,
    headers: Seq<Seq<char>>,
    rows: Seq<Seq<Seq<char>>>,
    style: SpanStyle,
    j: int,
) -> Seq<SpanView>
    decreases headers.len() - j,
{
    if j < 0 || j >= headers.len() {
        Seq::empty()
    } else {
        seq![
            SpanView {
                text: spec_pad_cell(spec_cell(row, j), spec_col_w(headers, rows, j)),
                style,
            },
            spec_border_glyph('│'),
        ] + spec_row_mid(row, headers, rows, style, j + 1)
    }
}

/// A whole table row line, header or data.
pub open spec fn spec_row_line(
    row: Seq<Seq<char>>,
    headers: Seq<Seq<char>>,
    rows: Seq<Seq<Seq<char>>>,
    style: SpanStyle,
) -> Seq<SpanView> {
    seq![spec_border_glyph('│')] + spec_row_mid(row, headers, rows, style, 0)
}

/// The full boxed table: top border, header row, separator, one line
/// per data row, bottom border.
pub open spec fn spec_table_lines(headers: Seq<Seq<char>>, rows: Seq<Seq<Seq<char>>>) -> Seq<
    Seq<SpanView>,
> {
    seq![
        spec_border_line(headers, rows, '┌', '┬', '┐'),
        spec_row_line(headers, headers, rows, style_table_header()),
        spec_border_line(headers, rows, '├', '┼', '┤'),
    ] + Seq::new(
        rows.len(),
        |k: int| spec_row_line(rows[k], headers, rows, style_table_cell()),
    ) + seq![spec_border_line(headers, rows, '└', '┴', '┘')]
}

/// A table, framed by blank lines.
pub open spec fn spec_render_table(
    headers: Seq<Seq<char>>,
    rows: Seq<Seq<Seq<char>>>,
    first: bool,
) -> Seq<Seq<SpanView>> {
    spec_blank_before(first) + spec_table_lines(headers, rows) + seq![spec_blank()]
}

/// The lines one element renders to. `first` says whether nothing has
/// been rendered before it.
pub open spec fn spec_render_elt(e: ElementView, width: int, first: bool) -> Seq<Seq<SpanView>> {
    match e {
        ElementView::Heading { level, text } => spec_render_heading(level, text, first),
        ElementView::Paragraph { text } => spec_wrap(text, width) + seq![spec_blank()],
        ElementView::CodeBlock { language, code } => spec_render_code_block(language, code, first),
        ElementView::InlineCode { text } => spec_render_inline_code(text),
        ElementView::Link { text, url: _ } => spec_render_link(text),
        ElementView::List { items, ordered } => spec_render_list(items, ordered),
        ElementView::BlockQuote { text } => spec_render_quote(text),
        ElementView::Rule => spec_render_rule(),
        ElementView::Text { text } => spec_wrap(text, width),
        ElementView::Table { headers, rows, alignments: _ } => spec_render_table(
            headers,
            rows,
            first,
        ),
    }
}

/// The lines a whole element sequence renders to.
pub open spec fn spec_render_rec(elts: Seq<ElementView>, width: int, first: bool) -> Seq<
    Seq<SpanView>,
> decreases elts.len(),
{
    if elts.len() == 0 {
        Seq::empty()
    } else {
        spec_render_elt(elts[0], width, first) + spec_render_rec(elts.drop_first(), width, false)
    }
}

/// The whole rendered document.
pub open spec fn spec_render(elts: Seq<ElementView>, width: int) -> Seq<Seq<SpanView>> {
    spec_render_rec(elts, width, true)
}

/// Every element contributes at least one line.  This is why an
/// element opens the document exactly when no line stands before it:
/// the blank line before a heading, code block or table may hang on
/// the element's position alone.
pub proof fn lemma_render_elt_nonempty(e: ElementView, width: int, first: bool)
    ensures
        spec_render_elt(e, width, first).len() >= 1,
{
    match e {
        ElementView::Paragraph { text } => {
            crate::wrap::lemma_wrap_rec_nonempty(
                crate::text::spec_split_ws(text),
                width,
                Seq::empty(),
                0,
                Seq::empty(),
            );
        },
        ElementView::Text { text } => {
            crate::wrap::lemma_wrap_rec_nonempty(
                crate::text::spec_split_ws(text),
                width,
                Seq::empty(),
                0,
                Seq::empty(),
            );
        },
        _ => {},
    }
}

/// Rendering no elements yields no lines.
pub proof fn lemma_render_empty(width: int)
    ensures
        spec_render(Seq::<ElementView>::empty(), width) =~~= Seq::<Seq<SpanView>>::empty(),
{
}

fn append_lines(dst: &mut Vec<StyledLine>, src: Vec<StyledLine>)
    ensures
        final(dst).deep_view() == old(dst).deep_view() + src.deep_view(),
{
    let ghost s0 = src.deep_view();
    let mut src = src;
    dst.append(&mut src);
    proof {
        assert(dst.deep_view() =~~= old(dst).deep_view() + s0);
    }
}

fn push_line(dst: &mut Vec<StyledLine>, line: StyledLine)
    ensures
        final(dst).deep_view() == old(dst).deep_view().push(line.deep_view()),
{
    let ghost l0 = line.deep_view();
    dst.push(line);
    proof {
        assert(dst.deep_view() =~~= old(dst).deep_view().push(l0));
    }
}

fn push_blank(dst: &mut Vec<StyledLine>)
    ensures
        final(dst).deep_view() == old(dst).deep_view().push(spec_blank()),
{
    let line = StyledLine { spans: Vec::new() };
    proof {
        assert(line.deep_view() =~~= spec_blank());
    }
    push_line(dst, line);
}

fn span_of(text: Vec<char>, style: SpanStyle) -> (r: StyledSpan)
    ensures
        r.deep_view() == (SpanView { text: text@, style }),
{
    StyledSpan { text: string_from_chars(&text), style }
}

fn one_span_line(text: Vec<char>, style: SpanStyle) -> (r: StyledLine)
    ensures
        r.deep_view() == seq![SpanView { text: text@, style }],
{
    let mut spans: Vec<StyledSpan> = Vec::new();
    spans.push(span_of(text, style));
    let r = StyledLine { spans };
    proof {
        assert(r.deep_view() =~~= seq![SpanView { text: text@, style }]);
    }
    r
}

fn render_heading(level: u8, text: &String, first: bool) -> (r: Vec<StyledLine>)
    ensures
        r.deep_view() == spec_render_heading(level, text@, first),
{
    let mut r: Vec<StyledLine> = Vec::new();
    if !first {
        push_blank(&mut r);
    }
    let mut prefix = repeat_char('#', level as usize);
    prefix.push(' ');
    let mut spans: Vec<StyledSpan> = Vec::new();
    spans.push(span_of(prefix, style_frame()));
    spans.push(StyledSpan { text: text.clone(), style: style_heading(level) });
    push_line(&mut r, StyledLine { spans });
    push_blank(&mut r);
    proof {
        assert(r.deep_view() =~~= spec_render_heading(level, text@, first));
    }
    r
}

fn fence_line(language: &Option<String>) -> (r: StyledLine)
    ensures
        r.deep_view() == spec_fence_line(language.deep_view()),
{
    let mut ticks: Vec<char> = Vec::new();
    ticks.push('`');
    ticks.push('`');
    ticks.push('`');
    proof {
        assert(ticks@ =~= seq!['`', '`', '`']);
    }
    let mut spans: Vec<StyledSpan> = Vec::new();
    spans.push(span_of(ticks, style_frame()));
    match language {
        Some(l) => {
            spans.push(StyledSpan { text: l.clone(), style: style_lang() });
        },
        None => {},
    }
    let r = StyledLine { spans };
    proof {
        assert(r.deep_view() =~~= spec_fence_line(language.deep_view()));
    }
    r
}

fn render_code_block(language: &Option<String>, code: &String, first: bool) -> (r: Vec<
    StyledLine,
>)
    ensures
        r.deep_view() == spec_render_code_block(language.deep_view(), code@, first),
{
    let mut r: Vec<StyledLine> = Vec::new();
    if !first {
        push_blank(&mut r);
    }
    push_line(&mut r, fence_line(language));
    let cs = chars_of(code.as_str());
    let lns = split_lines(&cs);
    let ghost base = r.deep_view();
    let mut j: usize = 0;
    proof {
        assert(r.deep_view() =~~= base + Seq::new(0nat, |i: int| spec_code_lines(code@)[i]));
    }
    while j < lns.len()
        invariant
            j <= lns@.len(),
            lns.deep_view() == spec_lines(code@),
            r.deep_view() == base + Seq::new(
                j as nat,
                |i: int| seq![
                    SpanView { text: seq![' ', ' '] + spec_lines(code@)[i], style: style_code() },
                ],
            ),
        decreases lns@.len() - j,
    {
        let ghost before = r.deep_view();
        let mut t: Vec<char> = Vec::new();
        t.push(' ');
        t.push(' ');
        push_chars(&mut t, &lns[j]);
        proof {
            assert(lns.deep_view()[j as int] == lns@[j as int].deep_view());
            assert(t@ =~= seq![' ', ' '] + spec_lines(code@)[j as int]);
        }
        push_line(&mut r, one_span_line(t, style_code()));
        j = j + 1;
        proof {
            assert(r.deep_view() =~~= base + Seq::new(
                j as nat,
                |i: int| seq![
                    SpanView { text: seq![' ', ' '] + spec_lines(code@)[i], style: style_code() },
                ],
            ));
        }
    }
    let no_lang: Option<String> = None;
    push_line(&mut r, fence_line(&no_lang));
    push_blank(&mut r);
    proof {
        assert(Seq::new(
            lns@.len() as nat,
            |i: int| seq![
                SpanView { text: seq![' ', ' '] + spec_lines(code@)[i], style: style_code() },
            ],
        ) =~~= spec_code_lines(code@));
        assert(r.deep_view() =~~= spec_render_code_block(language.deep_view(), code@, first));
    }
    r
}

fn render_inline_code(text: &String) -> (r: Vec<StyledLine>)
    ensures
        r.deep_view() == spec_render_inline_code(text@),
{
    let mut t: Vec<char> = Vec::new();
    t.push('`');
    let cs = chars_of(text.as_str());
    push_chars(&mut t, &cs);
    t.push('`');
    proof {
        assert(t@ =~= seq!['`'] + text@ + seq!['`']);
    }
    let mut r: Vec<StyledLine> = Vec::new();
    push_line(&mut r, one_span_line(t, style_code()));
    proof {
        assert(r.deep_view() =~~= spec_render_inline_code(text@));
    }
    r
}

fn render_link(text: &String) -> (r: Vec<StyledLine>)
    ensures
        r.deep_view() == spec_render_link(text@),
{
    let mut t: Vec<char> = Vec::new();
    t.push('[');
    let cs = chars_of(text.as_str());
    push_chars(&mut t, &cs);
    t.push(']');
    proof {
        assert(t@ =~= seq!['['] + text@ + seq![']']);
    }
    let mut r: Vec<StyledLine> = Vec::new();
    push_line(&mut r, one_span_line(t, style_link()));
    proof {
        assert(r.deep_view() =~~= spec_render_link(text@));
    }
    r
}

fn render_list(items: &Vec<String>, ordered: bool) -> (r: Vec<StyledLine>)
    ensures
        r.deep_view() == spec_render_list(items.deep_view(), ordered),
{
    let mut r: Vec<StyledLine> = Vec::new();
    let mut i: usize = 0;
    proof {
        assert(r.deep_view() =~~= Seq::new(0nat, |k: int| spec_render_list(items.deep_view(), ordered)[k]));
    }
    while i < items.len()
        invariant
            i <= items@.len(),
            r.deep_view() == Seq::new(
                i as nat,
                |k: int| seq![
                    SpanView { text: spec_list_prefix(ordered, k), style: style_list_prefix() },
                    SpanView { text: items.deep_view()[k], style: style_plain() },
                ],
            ),
        decreases items@.len() - i,
    {
        let prefix: Vec<char> = if ordered {
            let mut p = decimal_chars(i + 1);
            p.push('.');
            p.push(' ');
            proof {
                assert(p@ =~= spec_decimal((i + 1) as nat) + seq!['.', ' ']);
            }
            p
        } else {
            let mut p: Vec<char> = Vec::new();
            p.push('•');
            p.push(' ');
            proof {
                assert(p@ =~= seq!['•', ' ']);
            }
            p
        };
        let mut spans: Vec<StyledSpan> = Vec::new();
        spans.push(span_of(prefix, style_list_prefix()));
        spans.push(StyledSpan { text: items[i].clone(), style: style_plain() });
        push_line(&mut r, StyledLine { spans });
        i = i + 1;
        proof {
            assert(items.deep_view()[i - 1] == items@[i - 1]@);
            assert(r.deep_view() =~~= Seq::new(
                i as nat,
                |k: int| seq![
                    SpanView { text: spec_list_prefix(ordered, k), style: style_list_prefix() },
                    SpanView { text: items.deep_view()[k], style: style_plain() },
                ],
            ));
        }
    }
    push_blank(&mut r);
    proof {
        assert(r.deep_view() =~~= spec_render_list(items.deep_view(), ordered));
    }
    r
}

fn render_quote(text: &String) -> (r: Vec<StyledLine>)
    ensures
        r.deep_view() == spec_render_quote(text@),
{
    let cs = chars_of(text.as_str());
    let lns = split_lines(&cs);
    let mut r: Vec<StyledLine> = Vec::new();
    let mut j: usize = 0;
    proof {
        assert(r.deep_view() =~~= Seq::new(0nat, |k: int| spec_render_quote(text@)[k]));
    }
    while j < lns.len()
        invariant
            j <= lns@.len(),
            lns.deep_view() == spec_lines(text@),
            r.deep_view() == Seq::new(
                j as nat,
                |i: int| seq![
                    SpanView { text: seq!['▎', ' '], style: style_quote_bar() },
                    SpanView { text: spec_lines(text@)[i], style: style_quote_text() },
                ],
            ),
        decreases lns@.len() - j,
    {
        let mut bar: Vec<char> = Vec::new();
        bar.push('▎');
        bar.push(' ');
        proof {
            assert(bar@ =~= seq!['▎', ' ']);
        }
        let mut spans: Vec<StyledSpan> = Vec::new();
        spans.push(span_of(bar, style_quote_bar()));
        spans.push(StyledSpan { text: string_from_chars(&lns[j]), style: style_quote_text() });
        push_line(&mut r, StyledLine { spans });
        j = j + 1;
        proof {
            assert(lns.deep_view()[j - 1] == lns@[j - 1]@);
            assert(r.deep_view() =~~= Seq::new(
                j as nat,
                |i: int| seq![
                    SpanView { text: seq!['▎', ' '], style: style_quote_bar() },
                    SpanView { text: spec_lines(text@)[i], style: style_quote_text() },
                ],
            ));
        }
    }
    push_blank(&mut r);
    proof {
        assert(r.deep_view() =~~= spec_render_quote(text@));
    }
    r
}

fn render_rule() -> (r: Vec<StyledLine>)
    ensures
        r.deep_view() == spec_render_rule(),
{
    let mut r: Vec<StyledLine> = Vec::new();
    push_line(&mut r, one_span_line(repeat_char('─', 60), style_frame()));
    push_blank(&mut r);
    proof {
        assert(r.deep_view() =~~= spec_render_rule());
    }
    r
}

/// Column widths of a table, as `spec_col_w` gives them.
fn col_widths(headers: &Vec<String>, rows: &Vec<Vec<String>>) -> (w: Vec<usize>)
    ensures
        w@.len() == headers.deep_view().len(),
        forall|j: int|
            0 <= j < w@.len() ==> w@[j] as int == spec_col_w(
                headers.deep_view(),
                rows.deep_view(),
                j,
            ),
{
    let ghost h = headers.deep_view();
    let ghost rs = rows.deep_view();
    let mut w: Vec<usize> = Vec::new();
    let mut j: usize = 0;
    while j < headers.len()
        invariant
            j <= headers@.len(),
            h == headers.deep_view(),
            rs == rows.deep_view(),
            h.len() == headers@.len(),
            w@.len() == j,
            forall|t: int| 0 <= t < j ==> w@[t] as int == spec_col_w(h, rs, t),
        decreases headers@.len() - j,
    {
        let mut m: usize = headers[j].as_str().unicode_len();
        proof {
            assert(h[j as int] == headers@[j as int]@);
            assert(rs.take(0) =~~= Seq::<Seq<Seq<char>>>::empty());
        }
        let mut k: usize = 0;
        while k < rows.len()
            invariant
                k <= rows@.len(),
                rs == rows.deep_view(),
                rs.len() == rows@.len(),
                h == headers.deep_view(),
                j < h.len(),
                h[j as int] == headers@[j as int]@,
                m as int == (if h[j as int].len() as int > spec_rows_col_max(
                    rs.take(k as int),
                    j as int,
                ) {
                    h[j as int].len() as int
                } else {
                    spec_rows_col_max(rs.take(k as int), j as int)
                }),
            decreases rows@.len() - k,
        {
            proof {
                assert(rs.take(k as int + 1).drop_last() =~~= rs.take(k as int));
                assert(rs.take(k as int + 1).last() == rs[k as int]);
                assert(rs[k as int] == rows@[k as int].deep_view());
            }
            if j < rows[k].len() {
                let c = rows[k][j].as_str().unicode_len();
                proof {
                    assert(rows@[k as int].deep_view()[j as int] == rows@[k as int]@[j as int]@);
                    assert(spec_cell(rs[k as int], j as int) == rows@[k as int]@[j as int]@);
                }
                if c > m {
                    m = c;
                }
            } else {
                proof {
                    assert(spec_cell(rs[k as int], j as int) =~= Seq::<char>::empty());
                }
            }
            k = k + 1;
        }
        proof {
            assert(rs.take(rs.len() as int) =~~= rs);
        }
        let cw: usize = if m <= usize::MAX - 2 {
            m + 2
        } else {
            usize::MAX
        };
        w.push(cw);
        j = j + 1;
    }
    w
}

fn glyph_span(c: char) -> (r: StyledSpan)
    ensures
        r.deep_view() == spec_border_glyph(c),
{
    let mut v: Vec<char> = Vec::new();
    v.push(c);
    proof {
        assert(v@ =~= seq![c]);
    }
    span_of(v, style_table_border())
}

fn border_line_of(
    widths: &Vec<usize>,
    left: char,
    mid: char,
    right: char,
    Ghost(h): Ghost<Seq<Seq<char>>>,
    Ghost(rs): Ghost<Seq<Seq<Seq<char>>>>,
) -> (out: StyledLine)
    requires
        widths@.len() == h.len(),
        forall|j: int| 0 <= j < h.len() ==> widths@[j] as int == spec_col_w(h, rs, j),
    ensures
        out.deep_view() == spec_border_line(h, rs, left, mid, right),
{
    let mut spans: Vec<StyledSpan> = Vec::new();
    spans.push(glyph_span(left));
    let mut j: usize = 0;
    proof {
        assert(spans.deep_view() =~~= seq![spec_border_glyph(left)]);
    }
    while j < widths.len()
        invariant
            j <= widths@.len(),
            widths@.len() == h.len(),
            forall|t: int| 0 <= t < h.len() ==> widths@[t] as int == spec_col_w(h, rs, t),
            seq![spec_border_glyph(left)] + spec_border_mid(h, rs, 0, mid) == spans.deep_view()
                + spec_border_mid(h, rs, j as int, mid),
        decreases widths@.len() - j,
    {
        let ghost before = spans.deep_view();
        spans.push(span_of(repeat_char('─', widths[j]), style_table_border()));
        if j + 1 < widths.len() {
            spans.push(glyph_span(mid));
        }
        j = j + 1;
        proof {
            if j < widths@.len() {
                assert(spans.deep_view() =~~= before + seq![
                    SpanView {
                        text: spec_repeat('─', spec_col_w(h, rs, j - 1) as nat),
                        style: style_table_border(),
                    },
                    spec_border_glyph(mid),
                ]);
            } else {
                assert(spans.deep_view() =~~= before + seq![
                    SpanView {
                        text: spec_repeat('─', spec_col_w(h, rs, j - 1) as nat),
                        style: style_table_border(),
                    },
                ]);
            }
            assert(before + spec_border_mid(h, rs, j - 1, mid) =~~= spans.deep_view()
                + spec_border_mid(h, rs, j as int, mid));
        }
    }
    spans.push(glyph_span(right));
    let out = StyledLine { spans };
    proof {
        assert(spec_border_mid(h, rs, h.len() as int, mid) =~~= Seq::<SpanView>::empty());
        assert(out.deep_view() =~~= spec_border_line(h, rs, left, mid, right));
    }
    out
}

fn pad_cell_chars(text: &String, w: usize) -> (r: Vec<char>)
    ensures
        r@ == spec_pad_cell(text@, w as int),
{
    let mut r: Vec<char> = Vec::new();
    r.push(' ');
    let tc = chars_of(text.as_str());
    let tlen = tc.len();
    push_chars(&mut r, &tc);
    if w >= 1 && tlen <= w - 1 {
        let pad = repeat_char(' ', w - 1 - tlen);
        push_chars(&mut r, &pad);
    }
    proof {
        assert(r@ =~= spec_pad_cell(text@, w as int));
    }
    r
}

fn row_line_of(
    row: &Vec<String>,
    widths: &Vec<usize>,
    style: SpanStyle,
    Ghost(h): Ghost<Seq<Seq<char>>>,
    Ghost(rs): Ghost<Seq<Seq<Seq<char>>>>,
) -> (out: StyledLine)
    requires
        widths@.len() == h.len(),
        forall|j: int| 0 <= j < h.len() ==> widths@[j] as int == spec_col_w(h, rs, j),
    ensures
        out.deep_view() == spec_row_line(row.deep_view(), h, rs, style),
{
    let mut spans: Vec<StyledSpan> = Vec::new();
    spans.push(glyph_span('│'));
    let mut j: usize = 0;
    proof {
        assert(spans.deep_view() =~~= seq![spec_border_glyph('│')]);
    }
    while j < widths.len()
        invariant
            j <= widths@.len(),
            widths@.len() == h.len(),
            forall|t: int| 0 <= t < h.len() ==> widths@[t] as int == spec_col_w(h, rs, t),
            seq![spec_border_glyph('│')] + spec_row_mid(row.deep_view(), h, rs, style, 0)
                == spans.deep_view() + spec_row_mid(row.deep_view(), h, rs, style, j as int),
        decreases widths@.len() - j,
    {
        let ghost before = spans.deep_view();
        let padded: Vec<char> = if j < row.len() {
            let p = pad_cell_chars(&row[j], widths[j]);
            proof {
                assert(row.deep_view()[j as int] == row@[j as int]@);
                assert(spec_cell(row.deep_view(), j as int) == row@[j as int]@);
            }
            p
        } else {
            let empty_text = String::new();
            let p = pad_cell_chars(&empty_text, widths[j]);
            proof {
                assert(spec_cell(row.deep_view(), j as int) =~= Seq::<char>::empty());
            }
            p
        };
        spans.push(span_of(padded, style));
        spans.push(glyph_span('│'));
        j = j + 1;
        proof {
            assert(spans.deep_view() =~~= before + seq![
                SpanView {
                    text: spec_pad_cell(
                        spec_cell(row.deep_view(), j - 1),
                        spec_col_w(h, rs, j - 1),
                    ),
                    style,
                },
                spec_border_glyph('│'),
            ]);
            assert(before + spec_row_mid(row.deep_view(), h, rs, style, j - 1)
                =~~= spans.deep_view() + spec_row_mid(row.deep_view(), h, rs, style, j as int));
        }
    }
    let out = StyledLine { spans };
    proof {
        assert(spec_row_mid(row.deep_view(), h, rs, style, h.len() as int)
            =~~= Seq::<SpanView>::empty());
        assert(out.deep_view() =~~= spec_row_line(row.deep_view(), h, rs, style));
    }
    out
}

fn render_table(headers: &Vec<String>, rows: &Vec<Vec<String>>, first: bool) -> (r: Vec<
    StyledLine,
>)
    ensures
        r.deep_view() == spec_render_table(headers.deep_view(), rows.deep_view(), first),
{
    let ghost h = headers.deep_view();
    let ghost rs = rows.deep_view();
    let widths = col_widths(headers, rows);
    let mut r: Vec<StyledLine> = Vec::new();
    if !first {
        push_blank(&mut r);
    }
    push_line(&mut r, border_line_of(&widths, '┌', '┬', '┐', Ghost(h), Ghost(rs)));
    push_line(&mut r, row_line_of(headers, &widths, style_table_header(), Ghost(h), Ghost(rs)));
    push_line(&mut r, border_line_of(&widths, '├', '┼', '┤', Ghost(h), Ghost(rs)));
    let ghost base = r.deep_view();
    let mut k: usize = 0;
    proof {
        assert(r.deep_view() =~~= base + Seq::new(0nat, |t: int| spec_row_line(rs[t], h, rs, style_table_cell())));
    }
    while k < rows.len()
        invariant
            k <= rows@.len(),
            h == headers.deep_view(),
            rs == rows.deep_view(),
            rs.len() == rows@.len(),
            widths@.len() == h.len(),
            forall|t: int| 0 <= t < h.len() ==> widths@[t] as int == spec_col_w(h, rs, t),
            r.deep_view() == base + Seq::new(
                k as nat,
                |t: int| spec_row_line(rs[t], h, rs, style_table_cell()),
            ),
        decreases rows@.len() - k,
    {
        let line = row_line_of(&rows[k], &widths, style_table_cell(), Ghost(h), Ghost(rs));
        proof {
            assert(rows@[k as int].deep_view() == rs[k as int]);
        }
        push_line(&mut r, line);
        k = k + 1;
        proof {
            assert(r.deep_view() =~~= base + Seq::new(
                k as nat,
                |t: int| spec_row_line(rs[t], h, rs, style_table_cell()),
            ));
        }
    }
    push_line(&mut r, border_line_of(&widths, '└', '┴', '┘', Ghost(h), Ghost(rs)));
    push_blank(&mut r);
    proof {
        assert(r.deep_view() =~~= spec_render_table(h, rs, first));
    }
    r
}

/// Render a whole element sequence to styled display lines.
pub fn render_elements(elements: &Vec<MarkdownElement>, width: usize) -> (r: Vec<StyledLine>)
    ensures
        r.deep_view() == spec_render(elements.deep_view(), width as int),
{
    let ghost all = elements.deep_view();
    let mut lines: Vec<StyledLine> = Vec::new();
    let mut k: usize = 0;
    proof {
        assert(all.skip(0) =~~= all);
        assert(lines.deep_view() + spec_render_rec(all, width as int, true)
            =~~= spec_render(all, width as int));
    }
    while k < elements.len()
        invariant
            k <= elements@.len(),
            all == elements.deep_view(),
            all.len() == elements@.len(),
            spec_render(all, width as int) == lines.deep_view() + spec_render_rec(
                all.skip(k as int),
                width as int,
                k == 0,
            ),
        decreases elements@.len() - k,
    {
        let first = k == 0;
        proof {
            assert(all.skip(k as int)[0] == all[k as int]);
            assert(all.skip(k as int).drop_first() =~~= all.skip(k as int + 1));
            assert(all[k as int] == elements@[k as int].deep_view());
        }
        let add: Vec<StyledLine> = match &elements[k] {
            MarkdownElement::Heading { level, text } => render_heading(*level, text, first),
            MarkdownElement::Paragraph { text } => {
                let cs = chars_of(text.as_str());
                let mut w = wrap_text(&cs, width);
                push_blank(&mut w);
                proof {
                    assert(w.deep_view() =~~= spec_wrap(text@, width as int) + seq![spec_blank()]);
                }
                w
            },
            MarkdownElement::CodeBlock { language, code } => render_code_block(
                language,
                code,
                first,
            ),
            MarkdownElement::InlineCode { text } => render_inline_code(text),
            MarkdownElement::Link { text, url: _ } => render_link(text),
            MarkdownElement::List { items, ordered } => render_list(items, *ordered),
            MarkdownElement::BlockQuote { text } => render_quote(text),
            MarkdownElement::Rule => render_rule(),
            MarkdownElement::Text { text } => {
                let cs = chars_of(text.as_str());
                wrap_text(&cs, width)
            },
            MarkdownElement::Table { headers, rows, alignments: _ } => render_table(
                headers,
                rows,
                first,
            ),
        };
        proof {
            assert(add.deep_view() == spec_render_elt(all[k as int], width as int, k == 0));
        }
        append_lines(&mut lines, add);
        k = k + 1;
    }
    proof {
        assert(all.skip(all.len() as int) =~~= Seq::<ElementView>::empty());
        assert(lines.deep_view() =~~= spec_render(all, width as int));
    }
    lines
}

} // verus!
