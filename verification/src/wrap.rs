//! Word-wrapping with whole-word inline emphasis.
//!
//! Text is split on whitespace; words are laid onto lines, one blank
//! between neighbours, and a line is flushed when the next word would
//! push its length past the wrap width.  A single word longer than the
//! width stands alone on its own line.  Each word is inspected on its
//! own for emphasis markers: only a whole word wrapped in `**...**`,
//! `*...*` or backticks is styled, a span of several words is not — a
//! deliberate limitation of this renderer.
use vstd::prelude::*;

use crate::style::{
    style_bold_word, style_code, style_italic_word, style_plain, SpanView, StyledLine,
    StyledSpan,
};
use crate::text::{spec_split_ws, split_ws, string_from_chars, subrange_chars};

verus! {

/// The styled span that one whitespace-delimited word becomes.
pub open spec fn spec_word_span(w: Seq<char>) -> SpanView {
    if w.len() > 4 && w[0] == '*' && w[1] == '*' && w[w.len() - 1] == '*' && w[w.len() - 2]
        == '*' {
        SpanView { text: w.subrange(2, w.len() - 2), style: style_bold_word() }
    } else if w.len() > 2 && w[0] == '*' && w[w.len() - 1] == '*' {
        SpanView { text: w.subrange(1, w.len() - 1), style: style_italic_word() }
    } else if w.len() > 2 && w[0] == '`' && w[w.len() - 1] == '`' {
        SpanView { text: w.subrange(1, w.len() - 1), style: style_code() }
    } else {
        SpanView { text: w, style: style_plain() }
    }
}

/// The single blank written between two words on one line.
pub open spec fn spec_space_span() -> SpanView {
    SpanView { text: seq![' '], style: style_plain() }
}

/// Style one word: a whole word wrapped in `**...**` (longer than the
/// four markers) is bold, in `*...*` italic, in backticks code, with the
/// markers stripped; anything else is plain.
pub fn word_span(w: &Vec<char>) -> (r: StyledSpan)
    ensures
        r.deep_view() == spec_word_span(w@),
{
    let n = w.len();
    if n > 4 && w[0] == '*' && w[1] == '*' && w[n - 1] == '*' && w[n - 2] == '*' {
        let content = subrange_chars(w, 2, n - 2);
        StyledSpan { text: string_from_chars(&content), style: style_bold_word() }
    } else if n > 2 && w[0] == '*' && w[n - 1] == '*' {
        let content = subrange_chars(w, 1, n - 1);
        StyledSpan { text: string_from_chars(&content), style: style_italic_word() }
    } else if n > 2 && w[0] == '`' && w[n - 1] == '`' {
        let content = subrange_chars(w, 1, n - 1);
        StyledSpan { text: string_from_chars(&content), style: style_code() }
    } else {
        StyledSpan { text: string_from_chars(w), style: style_plain() }
    }
}

fn space_span() -> (r: StyledSpan)
    ensures
        r.deep_view() == spec_space_span(),
{
    let mut v: Vec<char> = Vec::new();
    v.push(' ');
    proof {
        assert(v@ =~= seq![' ']);
    }
    StyledSpan { text: string_from_chars(&v), style: style_plain() }
}

/// Lay words onto lines: `cur` is the open line, `cur_len` the length it
/// was accumulated at (markers included), `acc` the finished lines.
/// A text with no words yields exactly one empty line.
pub open spec fn spec_wrap_rec(
    words: Seq<Seq<char>>,
    width: int,
    cur: Seq<SpanView>,
    cur_len: int,
    acc: Seq<Seq<SpanView>>,
) -> Seq<Seq<SpanView>>
    decreases words.len(),
{
    if words.len() == 0 {
        let acc2 = if cur.len() > 0 {
            acc.push(cur)
        } else {
            acc
        };
        if acc2.len() == 0 {
            acc2.push(Seq::empty())
        } else {
            acc2
        }
    } else {
        let w = words[0];
        if cur.len() > 0 && cur_len + w.len() + 1 > width {
            spec_wrap_rec(
                words.drop_first(),
                width,
                seq![spec_word_span(w)],
                w.len() as int,
                acc.push(cur),
            )
        } else if cur.len() > 0 {
            spec_wrap_rec(
                words.drop_first(),
                width,
                cur + seq![spec_space_span(), spec_word_span(w)],
                cur_len + 1 + w.len(),
                acc,
            )
        } else {
            spec_wrap_rec(words.drop_first(), width, seq![spec_word_span(w)], w.len() as int, acc)
        }
    }
}

/// The lines that a text wraps to at the given width.
pub open spec fn spec_wrap(text: Seq<char>, width: int) -> Seq<Seq<SpanView>> {
    spec_wrap_rec(spec_split_ws(text), width, Seq::empty(), 0, Seq::empty())
}

/// The combined weight of a word list: each word plus one separator.
pub open spec fn words_weight(ws: Seq<Seq<char>>) -> int
    decreases ws.len(),
{
    if ws.len() == 0 {
        0
    } else {
        ws[0].len() + 1 + words_weight(ws.drop_first())
    }
}

/// Splitting on whitespace never weighs more than the text plus one:
/// every word of the split is separated by at least one character.
proof fn lemma_split_ws_weight(s: Seq<char>, cur: Seq<char>)
    ensures
        words_weight(crate::text::spec_split_ws_rec(s, cur)) <= s.len() + cur.len() + 1,
    decreases s.len(),
{
    if s.len() == 0 {
        if cur.len() > 0 {
            let r = seq![cur];
            assert(r.drop_first() =~~= Seq::<Seq<char>>::empty());
            assert(words_weight(Seq::<Seq<char>>::empty()) == 0);
            assert(words_weight(r) == cur.len() + 1);
        }
    } else if crate::text::is_space(s[0]) {
        lemma_split_ws_weight(s.drop_first(), Seq::empty());
        if cur.len() > 0 {
            let rest = crate::text::spec_split_ws_rec(s.drop_first(), Seq::empty());
            assert((seq![cur] + rest).drop_first() =~~= rest);
            assert((seq![cur] + rest)[0] == cur);
        }
    } else {
        lemma_split_ws_weight(s.drop_first(), cur.push(s[0]));
    }
}

/// A word list never has negative weight.
proof fn lemma_words_weight_nonneg(ws: Seq<Seq<char>>)
    ensures
        words_weight(ws) >= 0,
    decreases ws.len(),
{
    if ws.len() > 0 {
        lemma_words_weight_nonneg(ws.drop_first());
    }
}

/// Word-wrap a text.
pub fn wrap_text(text: &Vec<char>, width: usize) -> (r: Vec<StyledLine>)
    ensures
        r.deep_view() == spec_wrap(text@, width as int),
{
    let text_len = text.len();
    let words = split_ws(text);
    let mut lines: Vec<StyledLine> = Vec::new();
    let mut cur: Vec<StyledSpan> = Vec::new();
    let mut cur_len: usize = 0;
    let mut k: usize = 0;
    proof {
        lemma_split_ws_weight(text@, Seq::empty());
        assert(words.deep_view().skip(0) =~~= words.deep_view());
        assert(cur.deep_view() =~~= Seq::<SpanView>::empty());
        assert(lines.deep_view() =~~= Seq::<Seq<SpanView>>::empty());
    }
    while k < words.len()
        invariant
            k <= words@.len(),
            words.deep_view() == spec_split_ws(text@),
            text_len == text@.len(),
            spec_wrap(text@, width as int) == spec_wrap_rec(
                words.deep_view().skip(k as int),
                width as int,
                cur.deep_view(),
                cur_len as int,
                lines.deep_view(),
            ),
            (if cur.deep_view().len() > 0 {
                cur_len + 1
            } else {
                0
            }) + words_weight(words.deep_view().skip(k as int)) <= text_len + 1,
        decreases words@.len() - k,
    {
        let ghost remaining = words.deep_view().skip(k as int);
        proof {
            assert(remaining[0] == words.deep_view()[k as int]);
            assert(remaining.drop_first() =~~= words.deep_view().skip(k as int + 1));
        }
        let w_len = words[k].len();
        proof {
            assert(words.deep_view()[k as int] == words@[k as int].deep_view());
            assert(words@[k as int].deep_view() =~= words@[k as int]@);
            lemma_words_weight_nonneg(words.deep_view().skip(k as int + 1));
            assert(words_weight(remaining) == remaining[0].len() + 1 + words_weight(
                words.deep_view().skip(k as int + 1),
            ));
        }
        if cur.len() > 0 && cur_len + w_len + 1 > width {
            let ghost old_lines = lines.deep_view();
            let ghost old_cur = cur.deep_view();
            let mut done: Vec<StyledSpan> = Vec::new();
            core::mem::swap(&mut done, &mut cur);
            lines.push(StyledLine { spans: done });
            let span = word_span(&words[k]);
            cur.push(span);
            cur_len = w_len;
            proof {
                assert(lines.deep_view() =~~= old_lines.push(old_cur));
                assert(cur.deep_view() =~~= seq![spec_word_span(remaining[0])]);
            }
        } else if cur.len() > 0 {
            let ghost old_cur = cur.deep_view();
            cur.push(space_span());
            let span = word_span(&words[k]);
            cur.push(span);
            cur_len = cur_len + 1 + w_len;
            proof {
                assert(cur.deep_view() =~~= old_cur + seq![
                    spec_space_span(),
                    spec_word_span(remaining[0]),
                ]);
            }
        } else {
            proof {
                assert(cur.deep_view() =~= Seq::<SpanView>::empty());
            }
            let span = word_span(&words[k]);
            cur.push(span);
            cur_len = w_len;
            proof {
                assert(cur.deep_view() =~~= seq![spec_word_span(remaining[0])]);
            }
        }
        k = k + 1;
    }
    proof {
        assert(words.deep_view().skip(words@.len() as int) =~~= Seq::<Seq<char>>::empty());
    }
    if cur.len() > 0 {
        let ghost old_lines = lines.deep_view();
        let ghost old_cur = cur.deep_view();
        lines.push(StyledLine { spans: cur });
        proof {
            assert(lines.deep_view() =~~= old_lines.push(old_cur));
        }
    }
    if lines.len() == 0 {
        let ghost old_lines = lines.deep_view();
        lines.push(StyledLine { spans: Vec::new() });
        proof {
            assert(lines.deep_view() =~~= old_lines.push(Seq::<SpanView>::empty()));
        }
    }
    lines
}

/// The rendered character length of a line: the sum of its span texts.
pub open spec fn line_chars(line: Seq<SpanView>) -> int
    decreases line.len(),
{
    if line.len() == 0 {
        0
    } else {
        line_chars(line.drop_last()) + line.last().text.len()
    }
}

/// A line is within bounds if its rendered length is at most the width
/// or it holds exactly one span (a single word too long to wrap).
pub open spec fn line_fits(line: Seq<SpanView>, width: int) -> bool {
    line_chars(line) <= width || line.len() == 1
}

/// A word's span is never longer than the word it came from.
proof fn lemma_word_span_len(w: Seq<char>)
    ensures
        spec_word_span(w).text.len() <= w.len(),
{
}

proof fn lemma_line_chars_push(line: Seq<SpanView>, s: SpanView)
    ensures
        line_chars(line.push(s)) == line_chars(line) + s.text.len(),
{
    assert(line.push(s).drop_last() =~~= line);
}

proof fn lemma_wrap_rec_fits(
    words: Seq<Seq<char>>,
    width: int,
    cur: Seq<SpanView>,
    cur_len: int,
    acc: Seq<Seq<SpanView>>,
)
    requires
        width >= 0,
        line_chars(cur) <= cur_len,
        cur.len() <= 1 || cur_len <= width,
        forall|i: int| 0 <= i < acc.len() ==> line_fits(#[trigger] acc[i], width),
    ensures
        forall|i: int|
            0 <= i < spec_wrap_rec(words, width, cur, cur_len, acc).len() ==> line_fits(
                #[trigger] spec_wrap_rec(words, width, cur, cur_len, acc)[i],
                width,
            ),
    decreases words.len(),
{
    if words.len() == 0 {
        let r = spec_wrap_rec(words, width, cur, cur_len, acc);
        let acc2 = if cur.len() > 0 {
            acc.push(cur)
        } else {
            acc
        };
        if cur.len() > 0 {
            assert(line_fits(cur, width));
        }
        if acc2.len() == 0 {
            assert(r == acc2.push(Seq::<SpanView>::empty()));
            assert(line_chars(Seq::<SpanView>::empty()) == 0);
            assert forall|i: int| 0 <= i < r.len() implies line_fits(#[trigger] r[i], width) by {
                assert(r[i] == Seq::<SpanView>::empty());
            }
        } else {
            assert(r == acc2);
            assert forall|i: int| 0 <= i < r.len() implies line_fits(#[trigger] r[i], width) by {
                if cur.len() > 0 {
                    if i < acc.len() {
                        assert(r[i] == acc[i]);
                    } else {
                        assert(r[i] == cur);
                    }
                } else {
                    assert(r[i] == acc[i]);
                }
            }
        }
    } else {
        let w = words[0];
        lemma_word_span_len(w);
        if cur.len() > 0 && cur_len + w.len() + 1 > width {
            assert(line_fits(cur, width));
            assert(line_chars(seq![spec_word_span(w)].drop_last()) == 0);
            assert forall|i: int| 0 <= i < acc.push(cur).len() implies line_fits(
                #[trigger] acc.push(cur)[i],
                width,
            ) by {
                if i < acc.len() {
                    assert(acc.push(cur)[i] == acc[i]);
                } else {
                    assert(acc.push(cur)[i] == cur);
                }
            }
            lemma_wrap_rec_fits(
                words.drop_first(),
                width,
                seq![spec_word_span(w)],
                w.len() as int,
                acc.push(cur),
            );
            assert(spec_wrap_rec(words, width, cur, cur_len, acc) == spec_wrap_rec(
                words.drop_first(),
                width,
                seq![spec_word_span(w)],
                w.len() as int,
                acc.push(cur),
            ));
        } else if cur.len() > 0 {
            let cur2 = cur + seq![spec_space_span(), spec_word_span(w)];
            assert(cur2.drop_last() =~~= cur.push(spec_space_span()));
            lemma_line_chars_push(cur, spec_space_span());
            assert(line_chars(cur2) == line_chars(cur.push(spec_space_span()))
                + spec_word_span(w).text.len());
            lemma_wrap_rec_fits(words.drop_first(), width, cur2, cur_len + 1 + w.len(), acc);
            assert(spec_wrap_rec(words, width, cur, cur_len, acc) == spec_wrap_rec(
                words.drop_first(),
                width,
                cur2,
                cur_len + 1 + w.len(),
                acc,
            ));
        } else {
            assert(line_chars(seq![spec_word_span(w)].drop_last()) == 0);
            lemma_wrap_rec_fits(
                words.drop_first(),
                width,
                seq![spec_word_span(w)],
                w.len() as int,
                acc,
            );
            assert(spec_wrap_rec(words, width, cur, cur_len, acc) == spec_wrap_rec(
                words.drop_first(),
                width,
                seq![spec_word_span(w)],
                w.len() as int,
                acc,
            ));
        }
    }
}

/// Wrapping never yields an empty line list: a text with no words still
/// becomes one empty line.
pub proof fn lemma_wrap_rec_nonempty(
    words: Seq<Seq<char>>,
    width: int,
    cur: Seq<SpanView>,
    cur_len: int,
    acc: Seq<Seq<SpanView>>,
)
    ensures
        spec_wrap_rec(words, width, cur, cur_len, acc).len() >= 1,
        spec_wrap_rec(words, width, cur, cur_len, acc).len() >= acc.len(),
    decreases words.len(),
{
    if words.len() == 0 {
    } else {
        let w = words[0];
        if cur.len() > 0 && cur_len + w.len() + 1 > width {
            lemma_wrap_rec_nonempty(
                words.drop_first(),
                width,
                seq![spec_word_span(w)],
                w.len() as int,
                acc.push(cur),
            );
        } else if cur.len() > 0 {
            lemma_wrap_rec_nonempty(
                words.drop_first(),
                width,
                cur + seq![spec_space_span(), spec_word_span(w)],
                cur_len + 1 + w.len(),
                acc,
            );
        } else {
            lemma_wrap_rec_nonempty(
                words.drop_first(),
                width,
                seq![spec_word_span(w)],
                w.len() as int,
                acc,
            );
        }
    }
}

/// Law: wrapping at width `width` never yields a line whose rendered
/// length exceeds the width, except a line holding a single word that is
/// longer than the width by itself — that word stands alone, unwrapped.
pub proof fn lemma_wrap_width(text: Seq<char>, width: usize)
    ensures
        forall|i: int|
            0 <= i < spec_wrap(text, width as int).len() ==> line_fits(
                #[trigger] spec_wrap(text, width as int)[i],
                width as int,
            ),
{
    lemma_wrap_rec_fits(spec_split_ws(text), width as int, Seq::empty(), 0, Seq::empty());
}

} // verus!
