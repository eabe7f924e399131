//! Soft wrapping of diff rows that are wider than the viewport.
//!
//! A row is a gutter (cursor indicator, line number, origin marker) followed
//! by content. Rows that do not fit are cut into visual rows that each fill
//! the content area greedily, character by character; continuation rows
//! repeat the origin marker behind a `↪` in place of the line number.
//!
//! Positions inside the content are counted in characters.

use vstd::prelude::*;
use crate::text::{
    chars_of, char_width, column_width, copy_line, copy_span, copy_spans, spans_fit_within, spans_text,
    spans_view, lines_view, str_width, unicode_str_width, spans_width, SpanView, StyledLine,
    StyledSpan,
};

verus! {

/// The characters that fit, in order, into `budget` columns when each
/// character is kept if it still fits and moved to the rest otherwise.
/// A character that does not fit does not use up any of the budget.
pub open spec fn partition_by_budget(text: Seq<char>, budget: nat) -> (Seq<char>, Seq<char>)
    decreases text.len(),
{
    if text.len() == 0 {
        (Seq::empty(), Seq::empty())
    } else {
        let c = text[0];
        let w = column_width(c);
        if w <= budget {
            let (l, r) = partition_by_budget(text.drop_first(), (budget - w) as nat);
            (seq![c] + l, r)
        } else {
            let (l, r) = partition_by_budget(text.drop_first(), budget);
            (l, seq![c] + r)
        }
    }
}

/// A one-span sequence holding `text`, or nothing when `text` is empty.
pub open spec fn span_if_nonempty<S>(text: Seq<char>, style: S) -> Seq<SpanView<S>> {
    if text.len() > 0 {
        seq![SpanView { text: text, style: style }]
    } else {
        Seq::empty()
    }
}

/// The spans to the left of column `split_width` and those to its right,
/// when the spans before these ones already took `consumed` columns. A span
/// that straddles the split is cut with [`partition_by_budget`].
pub open spec fn split_spans_spec<S>(
    spans: Seq<SpanView<S>>,
    split_width: nat,
    consumed: nat,
) -> (Seq<SpanView<S>>, Seq<SpanView<S>>)
    decreases spans.len(),
{
    if spans.len() == 0 {
        (Seq::empty(), Seq::empty())
    } else {
        let sp = spans[0];
        let rest = spans.drop_first();
        let w = unicode_str_width(sp.text) as nat;
        if consumed >= split_width {
            let (l, r) = split_spans_spec(rest, split_width, consumed);
            (l, seq![sp] + r)
        } else if consumed + w <= split_width {
            let (l, r) = split_spans_spec(rest, split_width, consumed + w);
            (seq![sp] + l, r)
        } else {
            let (lc, rc) = partition_by_budget(sp.text, (split_width - consumed) as nat);
            let (l, r) = split_spans_spec(rest, split_width, split_width);
            (span_if_nonempty(lc, sp.style) + l, span_if_nonempty(rc, sp.style) + r)
        }
    }
}

/// Cuts `content` into the characters that fit into `budget` columns and
/// the rest.
fn partition_chars(content: &str, budget: usize) -> (r: (String, String))
    ensures
        r.0@ == partition_by_budget(content@, budget as nat).0,
        r.1@ == partition_by_budget(content@, budget as nat).1,
{
    let chars = chars_of(content);
    let mut left = String::new();
    let mut right = String::new();
    let mut used: usize = 0;
    let mut i: usize = 0;
    proof {
        assert(content@.skip(0) =~= content@);
    }
    while i < chars.len()
        invariant
            chars@ == content@,
            i <= chars@.len(),
            used <= budget,
            partition_by_budget(content@, budget as nat).0 == left@ + partition_by_budget(
                content@.skip(i as int),
                (budget - used) as nat,
            ).0,
            partition_by_budget(content@, budget as nat).1 == right@ + partition_by_budget(
                content@.skip(i as int),
                (budget - used) as nat,
            ).1,
        decreases chars@.len() - i,
    {
        let c = chars[i];
        let cw: usize = match char_width(c) {
            Some(w) => w,
            None => 0,
        };
        proof {
            assert(content@.skip(i as int).drop_first() =~= content@.skip(i + 1));
            assert(content@.skip(i as int)[0] == c);
        }
        let ghost old_left = left@;
        let ghost old_right = right@;
        let ghost old_used = used;
        if cw <= budget - used {
            left.push(c);
            used = used + cw;
            proof {
                assert(left@ + partition_by_budget(content@.skip(i + 1), (budget - used) as nat).0
                    =~= old_left + (seq![c] + partition_by_budget(
                    content@.skip(i + 1),
                    (budget - used) as nat,
                ).0));
            }
        } else {
            right.push(c);
            proof {
                assert(right@ + partition_by_budget(content@.skip(i + 1), (budget - used) as nat).1
                    =~= old_right + (seq![c] + partition_by_budget(
                    content@.skip(i + 1),
                    (budget - used) as nat,
                ).1));
            }
        }
        i = i + 1;
    }
    proof {
        assert(content@.skip(i as int) =~= Seq::<char>::empty());
        assert(left@ + Seq::<char>::empty() =~= left@);
        assert(right@ + Seq::<char>::empty() =~= right@);
    }
    (left, right)
}

/// Splits a row's spans at display column `split_width`: the spans before
/// it, and those after it. A span that straddles the column is cut in two,
/// each part keeping the span's style; an empty part is dropped.
pub fn split_spans_at_width<S: Copy>(spans: &Vec<StyledSpan<S>>, split_width: usize) -> (r: (
    Vec<StyledSpan<S>>,
    Vec<StyledSpan<S>>,
))
    ensures
        spans_view(r.0@) == split_spans_spec(spans_view(spans@), split_width as nat, 0).0,
        spans_view(r.1@) == split_spans_spec(spans_view(spans@), split_width as nat, 0).1,
{
    let mut left: Vec<StyledSpan<S>> = Vec::new();
    let mut right: Vec<StyledSpan<S>> = Vec::new();
    let mut consumed: usize = 0;
    let ghost all = spans_view(spans@);
    let mut i: usize = 0;
    proof {
        assert(all.skip(0) =~= all);
        assert(spans_view(left@) =~= Seq::<SpanView<S>>::empty());
        assert(spans_view(right@) =~= Seq::<SpanView<S>>::empty());
    }
    while i < spans.len()
        invariant
            all == spans_view(spans@),
            i <= spans@.len(),
            consumed <= split_width,
            split_spans_spec(all, split_width as nat, 0).0 == spans_view(left@) + split_spans_spec(
                all.skip(i as int),
                split_width as nat,
                consumed as nat,
            ).0,
            split_spans_spec(all, split_width as nat, 0).1 == spans_view(right@) + split_spans_spec(
                all.skip(i as int),
                split_width as nat,
                consumed as nat,
            ).1,
        decreases spans@.len() - i,
    {
        let span = &spans[i];
        let ghost rest = all.skip(i + 1);
        proof {
            assert(all.skip(i as int).drop_first() =~= rest);
            assert(all.skip(i as int)[0] == span@);
        }
        let ghost old_left = spans_view(left@);
        let ghost old_right = spans_view(right@);
        let span_width = str_width(span.content.as_str());
        if consumed >= split_width {
            right.push(copy_span(span));
            proof {
                assert(spans_view(right@) =~= old_right.push(span@));
                assert(spans_view(left@) =~= old_left);
                let (l, r) = split_spans_spec(rest, split_width as nat, consumed as nat);
                assert(old_right + (seq![span@] + r) =~= old_right.push(span@) + r);
            }
        } else if span_width <= split_width - consumed {
            left.push(copy_span(span));
            consumed = consumed + span_width;
            proof {
                assert(spans_view(left@) =~= old_left.push(span@));
                assert(spans_view(right@) =~= old_right);
                let (l, r) = split_spans_spec(rest, split_width as nat, consumed as nat);
                assert(old_left + (seq![span@] + l) =~= old_left.push(span@) + l);
            }
        } else {
            let chars_needed: usize = split_width - consumed;
            let (left_content, right_content) = partition_chars(span.content.as_str(), chars_needed);
            let left_empty = left_content.as_str().unicode_len() == 0;
            let right_empty = right_content.as_str().unicode_len() == 0;
            let ghost lc = left_content@;
            let ghost rc = right_content@;
            if !left_empty {
                left.push(StyledSpan { content: left_content, style: span.style });
            }
            if !right_empty {
                right.push(StyledSpan { content: right_content, style: span.style });
            }
            consumed = split_width;
            proof {
                assert(spans_view(left@) =~= old_left + span_if_nonempty(lc, span.style));
                assert(spans_view(right@) =~= old_right + span_if_nonempty(rc, span.style));
                let (l, r) = split_spans_spec(rest, split_width as nat, consumed as nat);
                assert(old_left + (span_if_nonempty(lc, span.style) + l) =~= (old_left
                    + span_if_nonempty(lc, span.style)) + l);
                assert(old_right + (span_if_nonempty(rc, span.style) + r) =~= (old_right
                    + span_if_nonempty(rc, span.style)) + r);
            }
        }
        i = i + 1;
    }
    proof {
        assert(all.skip(i as int) =~= Seq::<SpanView<S>>::empty());
        assert(spans_view(left@) + Seq::<SpanView<S>>::empty() =~= spans_view(left@));
        assert(spans_view(right@) + Seq::<SpanView<S>>::empty() =~= spans_view(right@));
    }
    (left, right)
}

/// The parts of the spans that lie between character positions `start`
/// and `end` of the row, when these spans begin at character `position`.
/// Each part keeps its span's style; spans outside the range contribute
/// nothing.
pub open spec fn slice_spans_spec<S>(
    spans: Seq<SpanView<S>>,
    start: nat,
    end: nat,
    position: nat,
) -> Seq<SpanView<S>>
    decreases spans.len(),
{
    if spans.len() == 0 {
        Seq::empty()
    } else {
        let sp = spans[0];
        let len = sp.text.len();
        let span_end = position + len;
        let rest = slice_spans_spec(spans.drop_first(), start, end, span_end);
        if span_end <= start || position >= end {
            rest
        } else {
            let slice_start: nat = if start > position { (start - position) as nat } else { 0 };
            let slice_end: nat = if end - position < len { (end - position) as nat } else { len };
            if slice_start < slice_end {
                seq![SpanView { text: sp.text.subrange(slice_start as int, slice_end as int), style: sp.style }]
                    + rest
            } else {
                rest
            }
        }
    }
}

/// The text of the first `k + 1` spans is that of the first `k` followed by
/// span `k`.
pub proof fn lemma_spans_text_step<S>(spans: Seq<SpanView<S>>, k: int)
    requires
        0 <= k < spans.len(),
    ensures
        spans_text(spans.take(k + 1)) == spans_text(spans.take(k)) + spans[k].text,
{
    assert(spans.take(k + 1).drop_last() =~= spans.take(k));
}

/// A prefix of the spans holds no more text than all of them.
pub proof fn lemma_spans_text_prefix_len<S>(spans: Seq<SpanView<S>>, k: int)
    requires
        0 <= k <= spans.len(),
    ensures
        spans_text(spans.take(k)).len() <= spans_text(spans).len(),
    decreases spans.len() - k,
{
    if k < spans.len() {
        lemma_spans_text_step(spans, k);
        lemma_spans_text_prefix_len(spans, k + 1);
    } else {
        assert(spans.take(k) =~= spans);
    }
}

/// Cuts out the parts of the spans between character positions `start` and
/// `end` of the row.
pub fn slice_spans_by_chars<S: Copy>(spans: &Vec<StyledSpan<S>>, start: usize, end: usize) -> (r: Vec<
    StyledSpan<S>,
>)
    requires
        spans_text(spans_view(spans@)).len() <= usize::MAX,
    ensures
        spans_view(r@) == slice_spans_spec(spans_view(spans@), start as nat, end as nat, 0),
{
    let mut result: Vec<StyledSpan<S>> = Vec::new();
    let mut position: usize = 0;
    let ghost all = spans_view(spans@);
    let mut i: usize = 0;
    proof {
        assert(all.skip(0) =~= all);
        assert(all.take(0) =~= Seq::<SpanView<S>>::empty());
        assert(spans_view(result@) =~= Seq::<SpanView<S>>::empty());
    }
    while i < spans.len()
        invariant
            all == spans_view(spans@),
            i <= spans@.len(),
            spans_text(all).len() <= usize::MAX,
            position == spans_text(all.take(i as int)).len(),
            slice_spans_spec(all, start as nat, end as nat, 0) == spans_view(result@)
                + slice_spans_spec(all.skip(i as int), start as nat, end as nat, position as nat),
        decreases spans@.len() - i,
    {
        let span = &spans[i];
        proof {
            assert(all.skip(i as int).drop_first() =~= all.skip(i + 1));
            assert(all.skip(i as int)[0] == span@);
            lemma_spans_text_step(all, i as int);
            lemma_spans_text_prefix_len(all, i + 1);
        }
        let ghost old_result = spans_view(result@);
        let len = span.content.as_str().unicode_len();
        let span_start = position;
        let span_end = position + len;
        if span_end <= start || span_start >= end {
            position = span_end;
        } else {
            let slice_start = start.saturating_sub(span_start);
            let slice_end = if end - span_start < len {
                end - span_start
            } else {
                len
            };
            if slice_start < slice_end {
                let piece = span.content.as_str().substring_char(slice_start, slice_end);
                result.push(StyledSpan { content: String::from_str(piece), style: span.style });
                proof {
                    let rest = slice_spans_spec(all.skip(i + 1), start as nat, end as nat, span_end as nat);
                    let head = SpanView {
                        text: span@.text.subrange(slice_start as int, slice_end as int),
                        style: span.style,
                    };
                    assert(spans_view(result@) =~= old_result.push(head));
                    assert(old_result + (seq![head] + rest) =~= old_result.push(head) + rest);
                }
            }
            position = span_end;
        }
        i = i + 1;
    }
    proof {
        assert(all.skip(i as int) =~= Seq::<SpanView<S>>::empty());
        assert(spans_view(result@) + Seq::<SpanView<S>>::empty() =~= spans_view(result@));
    }
    result
}

/// The styles that wrapping gives the spans it creates for continuation
/// rows: the cursor-indicator cell, the dimmed `↪` marker, and the plain
/// filler that stands in for a missing origin marker.
#[derive(Clone, Copy)]
pub struct WrapStyles<S> {
    pub indicator: S,
    pub dim: S,
    pub plain: S,
}

/// How many leading characters of `text` fit into `budget` columns when the
/// row is filled one character at a time, stopping at the first character
/// that does not fit.
pub open spec fn greedy_fit(text: Seq<char>, budget: nat) -> nat
    decreases text.len(),
{
    if text.len() == 0 {
        0
    } else if column_width(text[0]) > budget {
        0
    } else {
        1 + greedy_fit(text.drop_first(), (budget - column_width(text[0])) as nat)
    }
}

pub proof fn lemma_greedy_fit_bounded(text: Seq<char>, budget: nat)
    ensures
        greedy_fit(text, budget) <= text.len(),
    decreases text.len(),
{
    if text.len() > 0 && column_width(text[0]) <= budget {
        lemma_greedy_fit_bounded(text.drop_first(), (budget - column_width(text[0])) as nat);
    }
}

/// Where the visual row that starts at character `offset` ends: as many
/// characters as fit into `limit` columns, and at least one.
pub open spec fn row_end(text: Seq<char>, offset: nat, limit: nat) -> nat {
    let n = greedy_fit(text.skip(offset as int), limit);
    if n == 0 {
        offset + 1
    } else {
        offset + n
    }
}

/// `n` blanks.
pub open spec fn blanks(n: nat) -> Seq<char> {
    Seq::new(n, |i: int| ' ')
}

/// The gutter of a continuation row: a blank indicator cell, blanks in
/// place of the line number followed by `↪`, and the row's own origin
/// marker (the third gutter span) or two plain blanks when there is none.
pub open spec fn continuation_prefix<S>(
    gutter: Seq<SpanView<S>>,
    gutter_width: nat,
    styles: WrapStyles<S>,
) -> Seq<SpanView<S>> {
    let linenum_width: nat = if gutter_width >= 4 { (gutter_width - 4) as nat } else { 0 };
    seq![
        SpanView { text: seq![' '], style: styles.indicator },
        SpanView { text: blanks(linenum_width).push('↪'), style: styles.dim },
        if gutter.len() > 2 { gutter[2] } else { SpanView { text: seq![' ', ' '], style: styles.plain } },
    ]
}

/// The visual rows of a long row from character `offset` of its content
/// on; the first visual row keeps the row's own gutter.
pub open spec fn wrap_rows<S>(
    gutter: Seq<SpanView<S>>,
    content: Seq<SpanView<S>>,
    gutter_width: nat,
    limit: nat,
    styles: WrapStyles<S>,
    offset: nat,
    row_index: nat,
) -> Seq<Seq<SpanView<S>>>
    decreases spans_text(content).len() - offset,
{
    let text = spans_text(content);
    if offset >= text.len() {
        Seq::empty()
    } else {
        let end = row_end(text, offset, limit);
        proof {
            lemma_greedy_fit_bounded(text.skip(offset as int), limit);
        }
        let row_spans = slice_spans_spec(content, offset, end, 0);
        let row = if row_index == 0 {
            gutter + row_spans
        } else {
            continuation_prefix(gutter, gutter_width, styles) + row_spans
        };
        seq![row] + wrap_rows(gutter, content, gutter_width, limit, styles, end, row_index + 1)
    }
}

/// The visual rows of one logical row in a viewport `viewport_width`
/// columns wide whose gutter takes `gutter_width` of them: the row itself
/// when it fits, or when its content alone fits the content area;
/// otherwise its content cut into greedily filled visual rows.
pub open spec fn wrap_line<S>(
    line: Seq<SpanView<S>>,
    gutter_width: nat,
    viewport_width: nat,
    styles: WrapStyles<S>,
) -> Seq<Seq<SpanView<S>>> {
    let content_width: nat = if viewport_width >= gutter_width {
        (viewport_width - gutter_width) as nat
    } else {
        0
    };
    if spans_width(line) <= viewport_width {
        seq![line]
    } else {
        let (gutter, content) = split_spans_spec(line, gutter_width, 0);
        if unicode_str_width(spans_text(content)) <= content_width {
            seq![line]
        } else {
            let rows = wrap_rows(gutter, content, gutter_width, content_width, styles, 0, 0);
            if rows.len() == 0 {
                seq![line]
            } else {
                rows
            }
        }
    }
}

/// The visual rows of all logical rows, in order.
pub open spec fn expand_spec<S>(
    lines: Seq<Seq<SpanView<S>>>,
    gutter_width: nat,
    viewport_width: nat,
    styles: WrapStyles<S>,
) -> Seq<Seq<SpanView<S>>>
    decreases lines.len(),
{
    if lines.len() == 0 {
        Seq::empty()
    } else {
        expand_spec(lines.drop_last(), gutter_width, viewport_width, styles) + wrap_line(
            lines.last(),
            gutter_width,
            viewport_width,
            styles,
        )
    }
}

/// The characters of all spans as one string.
fn concat_span_text<S>(spans: &Vec<StyledSpan<S>>) -> (r: String)
    ensures
        r@ == spans_text(spans_view(spans@)),
{
    let mut out = String::new();
    let ghost all = spans_view(spans@);
    for i in 0..spans.len()
        invariant
            all == spans_view(spans@),
            out@ == spans_text(all.take(i as int)),
    {
        proof {
            lemma_spans_text_step(all, i as int);
        }
        out.append(spans[i].content.as_str());
    }
    proof {
        assert(all.take(spans@.len() as int) =~= all);
    }
    out
}

/// A string of `n` blanks.
fn blank_string(n: usize) -> (r: String)
    ensures
        r@ == blanks(n as nat),
{
    let mut out = String::new();
    for i in 0..n
        invariant
            out@ == blanks(i as nat),
    {
        out.push(' ');
        proof {
            assert(out@ =~= blanks((i + 1) as nat));
        }
    }
    out
}

/// The gutter spans of a continuation row.
fn continuation_row_prefix<S: Copy>(
    gutter: &Vec<StyledSpan<S>>,
    gutter_width: usize,
    styles: WrapStyles<S>,
) -> (r: Vec<StyledSpan<S>>)
    ensures
        spans_view(r@) == continuation_prefix(spans_view(gutter@), gutter_width as nat, styles),
{
    let mut indicator_text = String::new();
    indicator_text.push(' ');
    let linenum_width = gutter_width.saturating_sub(4);
    let mut marker_text = blank_string(linenum_width);
    marker_text.push('↪');
    let prefix_span = if gutter.len() > 2 {
        copy_span(&gutter[2])
    } else {
        let mut filler = String::new();
        filler.push(' ');
        filler.push(' ');
        StyledSpan { content: filler, style: styles.plain }
    };
    let mut spans: Vec<StyledSpan<S>> = Vec::new();
    spans.push(StyledSpan { content: indicator_text, style: styles.indicator });
    spans.push(StyledSpan { content: marker_text, style: styles.dim });
    spans.push(prefix_span);
    proof {
        assert(spans@[0]@.text =~= seq![' ']);
        assert(spans@[1]@.text =~= blanks(linenum_width as nat).push('↪'));
        if gutter.len() <= 2 {
            assert(spans@[2]@.text =~= seq![' ', ' ']);
        }
        assert(spans_view(spans@) =~= continuation_prefix(
            spans_view(gutter@),
            gutter_width as nat,
            styles,
        ));
    }
    spans
}

/// The end of the visual row that starts at character `offset`.
fn next_row_end(chars: &Vec<char>, offset: usize, limit: usize) -> (r: usize)
    requires
        offset < chars@.len(),
    ensures
        r == row_end(chars@, offset as nat, limit as nat),
        offset < r <= chars@.len(),
{
    let ghost text = chars@;
    let n = chars.len();
    let mut end: usize = offset;
    let mut row_width: usize = 0;
    proof {
        lemma_greedy_fit_bounded(text.skip(offset as int), limit as nat);
    }
    while end < chars.len()
        invariant
            text == chars@,
            n == chars@.len(),
            offset < chars@.len(),
            offset <= end <= chars@.len(),
            row_width <= limit,
            greedy_fit(text.skip(offset as int), limit as nat) == (end - offset) + greedy_fit(
                text.skip(end as int),
                (limit - row_width) as nat,
            ),
        ensures
            offset < n,
            n == chars@.len(),
            offset <= end <= chars@.len(),
            greedy_fit(text.skip(offset as int), limit as nat) == end - offset,
        decreases chars@.len() - end,
    {
        let cw: usize = match char_width(chars[end]) {
            Some(w) => w,
            None => 0,
        };
        proof {
            assert(text.skip(end as int)[0] == chars@[end as int]);
            assert(text.skip(end as int).drop_first() =~= text.skip(end + 1));
            assert(column_width(chars@[end as int]) == cw);
        }
        if cw > limit - row_width {
            break;
        }
        row_width = row_width + cw;
        end = end + 1;
        proof {
            if end == chars@.len() {
                assert(text.skip(end as int) =~= Seq::<char>::empty());
            }
        }
    }
    if end == offset {
        end = offset + 1;
    }
    end
}

/// Appends the visual rows of a long row to `expanded` and says how many
/// there were.
fn push_wrapped_rows<S: Copy>(
    gutter: &Vec<StyledSpan<S>>,
    content: &Vec<StyledSpan<S>>,
    chars: &Vec<char>,
    gutter_width: usize,
    limit: usize,
    styles: WrapStyles<S>,
    expanded: &mut Vec<StyledLine<S>>,
) -> (rows: usize)
    requires
        chars@ == spans_text(spans_view(content@)),
    ensures
        lines_view(final(expanded)@) == lines_view(old(expanded)@) + wrap_rows(
            spans_view(gutter@),
            spans_view(content@),
            gutter_width as nat,
            limit as nat,
            styles,
            0,
            0,
        ),
        rows == wrap_rows(
            spans_view(gutter@),
            spans_view(content@),
            gutter_width as nat,
            limit as nat,
            styles,
            0,
            0,
        ).len(),
{
    let ghost g = spans_view(gutter@);
    let ghost c = spans_view(content@);
    let ghost base = lines_view(expanded@);
    let ghost mut done: Seq<Seq<SpanView<S>>> = Seq::empty();
    let mut offset: usize = 0;
    let mut row_index: usize = 0;
    proof {
        assert(lines_view(expanded@) =~= base + done);
        assert(done + wrap_rows(g, c, gutter_width as nat, limit as nat, styles, 0, 0) =~= wrap_rows(
            g,
            c,
            gutter_width as nat,
            limit as nat,
            styles,
            0,
            0,
        ));
    }
    while offset < chars.len()
        invariant
            chars@ == spans_text(c),
            g == spans_view(gutter@),
            c == spans_view(content@),
            offset <= chars@.len(),
            row_index <= offset,
            done.len() == row_index,
            lines_view(expanded@) == base + done,
            done + wrap_rows(g, c, gutter_width as nat, limit as nat, styles, offset as nat, row_index as nat)
                == wrap_rows(g, c, gutter_width as nat, limit as nat, styles, 0, 0),
        decreases chars@.len() - offset,
    {
        let end = next_row_end(chars, offset, limit);
        let mut row_spans = slice_spans_by_chars(content, offset, end);
        let mut spans = if row_index == 0 {
            copy_spans(gutter)
        } else {
            continuation_row_prefix(gutter, gutter_width, styles)
        };
        let ghost prefix = spans_view(spans@);
        let ghost rs = spans_view(row_spans@);
        spans.append(&mut row_spans);
        let ghost row = spans_view(spans@);
        proof {
            assert(row =~= prefix + rs);
            let rest = wrap_rows(g, c, gutter_width as nat, limit as nat, styles, end as nat, (row_index + 1) as nat);
            assert(wrap_rows(g, c, gutter_width as nat, limit as nat, styles, offset as nat, row_index as nat)
                == seq![row] + rest);
            assert(done.push(row) + rest =~= done + (seq![row] + rest));
        }
        let ghost before = expanded@;
        expanded.push(StyledLine { spans });
        proof {
            assert(lines_view(expanded@) =~= lines_view(before).push(row));
            done = done.push(row);
            assert(lines_view(expanded@) =~= base + done);
        }
        offset = end;
        row_index = row_index + 1;
    }
    proof {
        assert(wrap_rows(g, c, gutter_width as nat, limit as nat, styles, offset as nat, row_index as nat)
            =~= Seq::<Seq<SpanView<S>>>::empty());
        assert(done + Seq::<Seq<SpanView<S>>>::empty() =~= done);
    }
    row_index
}

/// Appends the visual rows of one logical row to `expanded`.
fn expand_line<S: Copy>(
    line: StyledLine<S>,
    gutter_width: usize,
    viewport_width: usize,
    styles: WrapStyles<S>,
    expanded: &mut Vec<StyledLine<S>>,
)
    ensures
        lines_view(final(expanded)@) == lines_view(old(expanded)@) + wrap_line(
            line@,
            gutter_width as nat,
            viewport_width as nat,
            styles,
        ),
{
    let ghost before = lines_view(expanded@);
    let content_width = viewport_width.saturating_sub(gutter_width);
    if spans_fit_within(&line.spans, viewport_width) {
        expanded.push(line);
        proof {
            assert(lines_view(expanded@) =~= before + seq![line@]);
        }
        return;
    }
    let (gutter_spans, content_spans) = split_spans_at_width(&line.spans, gutter_width);
    let content_text = concat_span_text(&content_spans);
    let content_text_width = str_width(content_text.as_str());
    if content_text_width <= content_width {
        expanded.push(line);
        proof {
            assert(lines_view(expanded@) =~= before + seq![line@]);
        }
        return;
    }
    let chars = chars_of(content_text.as_str());
    let rows = push_wrapped_rows(
        &gutter_spans,
        &content_spans,
        &chars,
        gutter_width,
        content_width,
        styles,
        expanded,
    );
    if rows == 0 {
        let ghost mid = lines_view(expanded@);
        expanded.push(line);
        proof {
            assert(mid =~= before);
            assert(lines_view(expanded@) =~= before + seq![line@]);
        }
    }
}

/// Expands the logical rows of a diff view into visual rows for a viewport
/// `viewport_width` columns wide whose gutter takes `gutter_width` columns.
/// When no column is left for content the rows are returned as they are.
pub fn expand_wrapped_lines<S: Copy>(
    logical_lines: Vec<StyledLine<S>>,
    gutter_width: usize,
    viewport_width: usize,
    styles: WrapStyles<S>,
) -> (r: Vec<StyledLine<S>>)
    ensures
        lines_view(r@) == if viewport_width <= gutter_width {
            lines_view(logical_lines@)
        } else {
            expand_spec(lines_view(logical_lines@), gutter_width as nat, viewport_width as nat, styles)
        },
{
    let content_width = viewport_width.saturating_sub(gutter_width);
    if content_width == 0 {
        return logical_lines;
    }
    let ghost all = logical_lines@;
    let mut expanded: Vec<StyledLine<S>> = Vec::new();
    for line in it: logical_lines
        invariant
            it.seq() == all,
            lines_view(expanded@) == expand_spec(
                lines_view(all.take(it.index() as int)),
                gutter_width as nat,
                viewport_width as nat,
                styles,
            ),
    {
        proof {
            let k = it.index() as int;
            assert(lines_view(all.take(k + 1)).drop_last() =~= lines_view(all.take(k)));
            assert(lines_view(all.take(k + 1)).last() == line@);
        }
        expand_line(line, gutter_width, viewport_width, styles, &mut expanded);
    }
    proof {
        assert(all.take(all.len() as int) =~= all);
    }
    expanded
}

/// The text of spans is the first span's text followed by the text of the rest.
pub proof fn lemma_spans_text_front<S>(spans: Seq<SpanView<S>>)
    requires
        spans.len() > 0,
    ensures
        spans_text(spans) == spans[0].text + spans_text(spans.drop_first()),
    decreases spans.len(),
{
    if spans.len() == 1 {
        assert(spans.drop_first() =~= Seq::<SpanView<S>>::empty());
        assert(spans.drop_last() =~= Seq::<SpanView<S>>::empty());
        assert(spans_text(spans.drop_last()) =~= Seq::<char>::empty());
        assert(spans.last() == spans[0]);
        assert(spans_text(spans.drop_first()) =~= Seq::<char>::empty());
        assert(spans_text(spans) =~= Seq::<char>::empty() + spans[0].text);
        assert(spans[0].text + Seq::<char>::empty() =~= spans[0].text);
    } else {
        lemma_spans_text_front(spans.drop_last());
        assert(spans.drop_last().drop_first() =~= spans.drop_first().drop_last());
        assert(spans.drop_first().last() == spans.last());
        assert(spans.drop_last()[0] == spans[0]);
        assert(spans_text(spans) =~= spans[0].text + spans_text(spans.drop_first()));
    }
}

/// Clamps `x` into `0..=len`.
pub open spec fn clamp_index(x: int, len: int) -> int {
    if x < 0 {
        0
    } else if x > len {
        len
    } else {
        x
    }
}

/// Slicing spans cuts exactly the characters between the two positions out
/// of their joined text: the parts that slicing returns, joined, are the
/// row's characters from `start` to `end` (or to the row's end).
#[verifier::rlimit(40)]
pub proof fn law_slice_spans_text<S>(spans: Seq<SpanView<S>>, start: nat, end: nat, position: nat)
    requires
        start <= end,
    ensures
        spans_text(slice_spans_spec(spans, start, end, position)) == spans_text(spans).subrange(
            clamp_index(start - position, spans_text(spans).len() as int),
            clamp_index(end - position, spans_text(spans).len() as int),
        ),
    decreases spans.len(),
{
    let t = spans_text(spans);
    if spans.len() == 0 {
        assert(t.subrange(0, 0) =~= Seq::<char>::empty());
    } else {
        let sp = spans[0];
        let len = sp.text.len();
        let rest = spans.drop_first();
        let tr = spans_text(rest);
        lemma_spans_text_front(spans);
        law_slice_spans_text(rest, start, end, position + len);
        let rs = slice_spans_spec(rest, start, end, position + len);
        let a = clamp_index(start - position, t.len() as int);
        let b = clamp_index(end - position, t.len() as int);
        let a2 = clamp_index(start - position - len, tr.len() as int);
        let b2 = clamp_index(end - position - len, tr.len() as int);
        assert(spans_text(rs) == tr.subrange(a2, b2));
        if position + len <= start {
            assert(t.subrange(a, b) =~= tr.subrange(a2, b2));
        } else if position >= end {
            assert(a == 0 && b == 0);
            assert(a2 == 0 && b2 == 0);
            assert(t.subrange(a, b) =~= tr.subrange(a2, b2));
        } else {
            let ss: int = if start > position { start - position } else { 0 };
            let se: int = if end - position < len { end - position } else { len as int };
            assert(a2 == 0);
            if ss < se {
                let head = SpanView { text: sp.text.subrange(ss, se), style: sp.style };
                assert(slice_spans_spec(spans, start, end, position) == seq![head] + rs);
                lemma_spans_text_front(seq![head] + rs);
                assert((seq![head] + rs).drop_first() =~= rs);
                if end - position < len {
                    assert(b2 == 0);
                    assert(t.subrange(a, b) =~= sp.text.subrange(ss, se) + tr.subrange(a2, b2));
                } else {
                    assert(t.subrange(a, b) =~= sp.text.subrange(ss, se) + tr.subrange(a2, b2));
                }
            } else if len == 0 {
                assert(t =~= tr);
                assert(t.subrange(a, b) =~= tr.subrange(a2, b2));
            } else {
                assert(end - position < len);
                assert(b2 == 0);
                assert(a == b);
                assert(t.subrange(a, b) =~= tr.subrange(a2, b2));
            }
        }
    }
}

/// The characters of each visual row of `text`, from character `offset` on.
pub open spec fn wrap_row_texts(text: Seq<char>, limit: nat, offset: nat) -> Seq<Seq<char>>
    decreases text.len() - offset,
{
    if offset >= text.len() {
        Seq::empty()
    } else {
        let end = row_end(text, offset, limit);
        proof {
            lemma_greedy_fit_bounded(text.skip(offset as int), limit);
        }
        seq![text.subrange(offset as int, end as int)] + wrap_row_texts(text, limit, end)
    }
}

/// The rows joined into one sequence.
pub open spec fn join_texts(rows: Seq<Seq<char>>) -> Seq<char>
    decreases rows.len(),
{
    if rows.len() == 0 {
        Seq::empty()
    } else {
        rows[0] + join_texts(rows.drop_first())
    }
}

/// The columns that the characters take when filled one by one.
pub open spec fn columns(text: Seq<char>) -> nat
    decreases text.len(),
{
    if text.len() == 0 {
        0
    } else {
        column_width(text[0]) + columns(text.drop_first())
    }
}

proof fn lemma_row_end_bounds(text: Seq<char>, offset: nat, limit: nat)
    requires
        offset < text.len(),
    ensures
        offset < row_end(text, offset, limit) <= text.len(),
{
    lemma_greedy_fit_bounded(text.skip(offset as int), limit);
}

/// Joining the visual rows' characters gives back the text they were cut
/// from, each row is non-empty, and the rows are as many as the rows that
/// wrapping builds; the content part of each built row (behind its gutter:
/// the row's own gutter on the first row, the three continuation spans on
/// the others) holds exactly that row's characters.
pub proof fn law_wrapped_rows_rebuild_content<S>(
    gutter: Seq<SpanView<S>>,
    content: Seq<SpanView<S>>,
    gutter_width: nat,
    limit: nat,
    styles: WrapStyles<S>,
    offset: nat,
    row_index: nat,
)
    requires
        offset <= spans_text(content).len(),
    ensures
        join_texts(wrap_row_texts(spans_text(content), limit, offset)) == spans_text(content).skip(
            offset as int,
        ),
        wrap_rows(gutter, content, gutter_width, limit, styles, offset, row_index).len()
            == wrap_row_texts(spans_text(content), limit, offset).len(),
        forall|k: int|
            0 <= k < wrap_row_texts(spans_text(content), limit, offset).len() ==> {
                &&& (#[trigger] wrap_row_texts(spans_text(content), limit, offset)[k]).len() > 0
                &&& spans_text(
                    wrap_rows(gutter, content, gutter_width, limit, styles, offset, row_index)[k].skip(
                        if row_index + k == 0 {
                            gutter.len() as int
                        } else {
                            3
                        },
                    ),
                ) == wrap_row_texts(spans_text(content), limit, offset)[k]
            },
    decreases spans_text(content).len() - offset,
{
    let text = spans_text(content);
    if offset >= text.len() {
        assert(text.skip(offset as int) =~= Seq::<char>::empty());
    } else {
        let end = row_end(text, offset, limit);
        lemma_row_end_bounds(text, offset, limit);
        law_wrapped_rows_rebuild_content(
            gutter,
            content,
            gutter_width,
            limit,
            styles,
            end,
            row_index + 1,
        );
        let rows = wrap_rows(gutter, content, gutter_width, limit, styles, offset, row_index);
        let rest_rows = wrap_rows(gutter, content, gutter_width, limit, styles, end, row_index + 1);
        let texts = wrap_row_texts(text, limit, offset);
        let rest_texts = wrap_row_texts(text, limit, end);
        assert(texts.drop_first() =~= rest_texts);
        assert(join_texts(texts) =~= text.subrange(offset as int, end as int) + text.skip(end as int));
        assert(text.subrange(offset as int, end as int) + text.skip(end as int) =~= text.skip(
            offset as int,
        ));
        let row_spans = slice_spans_spec(content, offset, end, 0);
        law_slice_spans_text(content, offset, end, 0);
        assert(spans_text(row_spans) == text.subrange(offset as int, end as int));
        let prefix = if row_index == 0 {
            gutter
        } else {
            continuation_prefix(gutter, gutter_width, styles)
        };
        assert(rows[0] == prefix + row_spans);
        assert((prefix + row_spans).skip(prefix.len() as int) =~= row_spans);
        assert forall|k: int| 0 <= k < texts.len() implies {
            &&& (#[trigger] texts[k]).len() > 0
            &&& spans_text(
                rows[k].skip(
                    if row_index + k == 0 {
                        gutter.len() as int
                    } else {
                        3
                    },
                ),
            ) == texts[k]
        } by {
            if k > 0 {
                assert(rows[k] == rest_rows[k - 1]);
                assert(texts[k] == rest_texts[k - 1]);
                assert(row_index + 1 + (k - 1) == row_index + k);
            }
        }
    }
}

/// `greedy_fit` characters take at most the budget, and the character after
/// them, if any, would not fit.
proof fn lemma_greedy_fit_fills(text: Seq<char>, budget: nat)
    ensures
        columns(text.take(greedy_fit(text, budget) as int)) <= budget,
        greedy_fit(text, budget) < text.len() ==> columns(text.take(greedy_fit(text, budget) as int))
            + column_width(text[greedy_fit(text, budget) as int]) > budget,
    decreases text.len(),
{
    lemma_greedy_fit_bounded(text, budget);
    let n = greedy_fit(text, budget);
    if text.len() == 0 {
        assert(text.take(0) =~= Seq::<char>::empty());
    } else if column_width(text[0]) > budget {
        assert(text.take(0) =~= Seq::<char>::empty());
    } else {
        let w = column_width(text[0]);
        let rest = text.drop_first();
        lemma_greedy_fit_fills(rest, (budget - w) as nat);
        let m = greedy_fit(rest, (budget - w) as nat);
        assert(n == m + 1);
        assert(text.take(n as int).drop_first() =~= rest.take(m as int));
        assert(text.take(n as int)[0] == text[0]);
        if n < text.len() {
            assert(text[n as int] == rest[m as int]);
        }
    }
}

/// Every visual row is non-empty and fits into `limit` columns unless it
/// is a single character too wide to fit at all; and every row but the
/// last is full: the first character of the next row would not have fit
/// behind it.
pub proof fn law_wrapped_rows_fit(text: Seq<char>, limit: nat, offset: nat)
    requires
        offset <= text.len(),
    ensures
        forall|k: int|
            0 <= k < wrap_row_texts(text, limit, offset).len() ==> {
                let row = #[trigger] wrap_row_texts(text, limit, offset)[k];
                &&& row.len() > 0
                &&& (row.len() == 1 || columns(row) <= limit)
            },
        forall|k: int|
            0 <= k < wrap_row_texts(text, limit, offset).len() - 1 ==> columns(
                #[trigger] wrap_row_texts(text, limit, offset)[k],
            ) + column_width(wrap_row_texts(text, limit, offset)[k + 1][0]) > limit,
    decreases text.len() - offset,
{
    if offset < text.len() {
        let end = row_end(text, offset, limit);
        lemma_row_end_bounds(text, offset, limit);
        law_wrapped_rows_fit(text, limit, end);
        let t = text.skip(offset as int);
        lemma_greedy_fit_fills(t, limit);
        let n = greedy_fit(t, limit);
        let texts = wrap_row_texts(text, limit, offset);
        let rest = wrap_row_texts(text, limit, end);
        assert(texts.drop_first() =~= rest);
        let row = text.subrange(offset as int, end as int);
        assert(texts[0] == row);
        if n > 0 {
            assert(row =~= t.take(n as int));
        }
        if rest.len() > 0 {
            lemma_row_end_bounds(text, end, limit);
            assert(rest[0] == text.subrange(end as int, row_end(text, end, limit) as int));
            assert(rest[0][0] == text[end as int]);
            if n > 0 {
                assert(t[n as int] == text[end as int]);
            } else {
                assert(t[0] == text[offset as int]);
                assert(row =~= seq![text[offset as int]]);
                assert(row.drop_first() =~= Seq::<char>::empty());
                assert(columns(row.drop_first()) == 0);
                assert(columns(row) == column_width(text[offset as int]));
            }
        }
        assert forall|k: int| 0 <= k < texts.len() implies {
            let r = #[trigger] texts[k];
            &&& r.len() > 0
            &&& (r.len() == 1 || columns(r) <= limit)
        } by {
            if k > 0 {
                assert(texts[k] == rest[k - 1]);
            }
        }
        assert forall|k: int| 0 <= k < texts.len() - 1 implies columns(#[trigger] texts[k])
            + column_width(texts[k + 1][0]) > limit by {
            if k > 0 {
                assert(texts[k] == rest[k - 1]);
                assert(texts[k + 1] == rest[k]);
            }
        }
    }
}

/// The characters of a text, each paired with `style`.
pub open spec fn tagged<S>(text: Seq<char>, style: S) -> Seq<(char, S)> {
    text.map_values(|c: char| (c, style))
}

/// The characters of all spans in order, each paired with the style of the
/// span it stands in.
pub open spec fn styled_chars<S>(spans: Seq<SpanView<S>>) -> Seq<(char, S)>
    decreases spans.len(),
{
    if spans.len() == 0 {
        Seq::empty()
    } else {
        styled_chars(spans.drop_last()) + tagged(spans.last().text, spans.last().style)
    }
}

proof fn lemma_styled_chars_len<S>(spans: Seq<SpanView<S>>)
    ensures
        styled_chars(spans).len() == spans_text(spans).len(),
    decreases spans.len(),
{
    if spans.len() > 0 {
        lemma_styled_chars_len(spans.drop_last());
    }
}

proof fn lemma_styled_chars_front<S>(spans: Seq<SpanView<S>>)
    requires
        spans.len() > 0,
    ensures
        styled_chars(spans) == tagged(spans[0].text, spans[0].style) + styled_chars(spans.drop_first()),
    decreases spans.len(),
{
    if spans.len() == 1 {
        assert(spans.drop_first() =~= Seq::<SpanView<S>>::empty());
        assert(spans.drop_last() =~= Seq::<SpanView<S>>::empty());
        assert(styled_chars(spans.drop_last()) =~= Seq::<(char, S)>::empty());
        assert(spans.last() == spans[0]);
        assert(styled_chars(spans.drop_first()) =~= Seq::<(char, S)>::empty());
        assert(styled_chars(spans) =~= tagged(spans[0].text, spans[0].style) + styled_chars(spans.drop_first()));
    } else {
        lemma_styled_chars_front(spans.drop_last());
        assert(spans.drop_last().drop_first() =~= spans.drop_first().drop_last());
        assert(spans.drop_first().last() == spans.last());
        assert(spans.drop_last()[0] == spans[0]);
        assert(styled_chars(spans) =~= tagged(spans[0].text, spans[0].style) + styled_chars(spans.drop_first()));
    }
}

/// Slicing spans keeps each character's style: the styled characters of
/// the parts that slicing returns are those of the spans between the two
/// positions.
#[verifier::rlimit(40)]
pub proof fn law_slice_spans_keeps_styles<S>(spans: Seq<SpanView<S>>, start: nat, end: nat, position: nat)
    requires
        start <= end,
    ensures
        styled_chars(slice_spans_spec(spans, start, end, position)) == styled_chars(spans).subrange(
            clamp_index(start - position, styled_chars(spans).len() as int),
            clamp_index(end - position, styled_chars(spans).len() as int),
        ),
    decreases spans.len(),
{
    let t = styled_chars(spans);
    if spans.len() == 0 {
        assert(t.subrange(0, 0) =~= Seq::<(char, S)>::empty());
    } else {
        let sp = spans[0];
        let len = sp.text.len();
        let rest = spans.drop_first();
        let tr = styled_chars(rest);
        let head_all = tagged(sp.text, sp.style);
        lemma_styled_chars_front(spans);
        assert(head_all.len() == len);
        law_slice_spans_keeps_styles(rest, start, end, position + len);
        let rs = slice_spans_spec(rest, start, end, position + len);
        let a = clamp_index(start - position, t.len() as int);
        let b = clamp_index(end - position, t.len() as int);
        let a2 = clamp_index(start - position - len, tr.len() as int);
        let b2 = clamp_index(end - position - len, tr.len() as int);
        assert(styled_chars(rs) == tr.subrange(a2, b2));
        if position + len <= start {
            assert(t.subrange(a, b) =~= tr.subrange(a2, b2));
        } else if position >= end {
            assert(a == 0 && b == 0);
            assert(a2 == 0 && b2 == 0);
            assert(t.subrange(a, b) =~= tr.subrange(a2, b2));
        } else {
            let ss: int = if start > position { start - position } else { 0 };
            let se: int = if end - position < len { end - position } else { len as int };
            assert(a2 == 0);
            if ss < se {
                let head = SpanView { text: sp.text.subrange(ss, se), style: sp.style };
                assert(slice_spans_spec(spans, start, end, position) == seq![head] + rs);
                lemma_styled_chars_front(seq![head] + rs);
                assert((seq![head] + rs).drop_first() =~= rs);
                assert(tagged(head.text, head.style) =~= head_all.subrange(ss, se));
                if end - position < len {
                    assert(b2 == 0);
                    assert(t.subrange(a, b) =~= head_all.subrange(ss, se) + tr.subrange(a2, b2));
                } else {
                    assert(t.subrange(a, b) =~= head_all.subrange(ss, se) + tr.subrange(a2, b2));
                }
            } else if len == 0 {
                assert(head_all =~= Seq::<(char, S)>::empty());
                assert(t =~= tr);
                assert(t.subrange(a, b) =~= tr.subrange(a2, b2));
            } else {
                assert(end - position < len);
                assert(b2 == 0);
                assert(a == b);
                assert(t.subrange(a, b) =~= tr.subrange(a2, b2));
            }
        }
    }
}

/// The styled characters of the content parts of visual rows, in order:
/// behind `skip_first` gutter spans on the first row and behind the three
/// continuation spans on the others.
pub open spec fn rows_content_styled<S>(rows: Seq<Seq<SpanView<S>>>, skip_first: nat) -> Seq<(char, S)>
    decreases rows.len(),
{
    if rows.len() == 0 {
        Seq::empty()
    } else {
        styled_chars(rows[0].skip(skip_first as int)) + rows_content_styled(rows.drop_first(), 3)
    }
}

/// Wrapping keeps every character with the style of the span it came from:
/// the content parts of the visual rows, joined in order, hold exactly the
/// styled characters of the content, from `offset` on; nothing is lost,
/// repeated or restyled.
pub proof fn law_wrapped_rows_keep_styles<S>(
    gutter: Seq<SpanView<S>>,
    content: Seq<SpanView<S>>,
    gutter_width: nat,
    limit: nat,
    styles: WrapStyles<S>,
    offset: nat,
    row_index: nat,
)
    requires
        offset <= spans_text(content).len(),
    ensures
        rows_content_styled(
            wrap_rows(gutter, content, gutter_width, limit, styles, offset, row_index),
            if row_index == 0 { gutter.len() } else { 3 },
        ) == styled_chars(content).skip(offset as int),
    decreases spans_text(content).len() - offset,
{
    let text = spans_text(content);
    let sc = styled_chars(content);
    lemma_styled_chars_len(content);
    let rows = wrap_rows(gutter, content, gutter_width, limit, styles, offset, row_index);
    let first_skip: nat = if row_index == 0 { gutter.len() } else { 3 };
    if offset >= text.len() {
        assert(sc.skip(offset as int) =~= Seq::<(char, S)>::empty());
    } else {
        let end = row_end(text, offset, limit);
        lemma_row_end_bounds(text, offset, limit);
        law_wrapped_rows_keep_styles(gutter, content, gutter_width, limit, styles, end, row_index + 1);
        let rest_rows = wrap_rows(gutter, content, gutter_width, limit, styles, end, row_index + 1);
        assert(rows.drop_first() =~= rest_rows);
        let row_spans = slice_spans_spec(content, offset, end, 0);
        law_slice_spans_keeps_styles(content, offset, end, 0);
        assert(styled_chars(row_spans) == sc.subrange(offset as int, end as int));
        let prefix = if row_index == 0 {
            gutter
        } else {
            continuation_prefix(gutter, gutter_width, styles)
        };
        assert(prefix.len() == first_skip);
        assert(rows[0] == prefix + row_spans);
        assert((prefix + row_spans).skip(prefix.len() as int) =~= row_spans);
        assert(sc.subrange(offset as int, end as int) + sc.skip(end as int) =~= sc.skip(offset as int));
    }
}

/// A row that fits the viewport is kept as it is, and so is a row whose
/// content alone fits the content area; a longer row becomes at least one
/// visual row, and each visual row but the first starts with the
/// continuation gutter: a blank indicator cell, the `↪` mark in the dim
/// style, and the row's origin marker.
pub proof fn law_rows_that_fit_are_kept<S>(
    line: Seq<SpanView<S>>,
    gutter_width: nat,
    viewport_width: nat,
    styles: WrapStyles<S>,
)
    ensures
        spans_width(line) <= viewport_width ==> wrap_line(line, gutter_width, viewport_width, styles) == seq![line],
        wrap_line(line, gutter_width, viewport_width, styles).len() >= 1,
        ({
            let rows = wrap_line(line, gutter_width, viewport_width, styles);
            let (gutter, content) = split_spans_spec(line, gutter_width, 0);
            rows.len() > 1 ==> forall|k: int|
                1 <= k < rows.len() ==> {
                    &&& (#[trigger] rows[k])[0] == SpanView { text: seq![' '], style: styles.indicator }
                    &&& rows[k][1].style == styles.dim && rows[k][1].text.last() == '↪'
                    &&& rows[k][2] == if gutter.len() > 2 {
                        gutter[2]
                    } else {
                        SpanView { text: seq![' ', ' '], style: styles.plain }
                    }
                }
        }),
{
    let rows = wrap_line(line, gutter_width, viewport_width, styles);
    let (gutter, content) = split_spans_spec(line, gutter_width, 0);
    let content_width: nat = if viewport_width >= gutter_width {
        (viewport_width - gutter_width) as nat
    } else {
        0
    };
    if rows.len() > 1 {
        let wr = wrap_rows(gutter, content, gutter_width, content_width, styles, 0, 0);
        assert(rows == wr);
        lemma_wrap_rows_continuations(gutter, content, gutter_width, content_width, styles, 0, 0);
        let p = continuation_prefix(gutter, gutter_width, styles);
        assert forall|k: int| 1 <= k < rows.len() implies {
            &&& (#[trigger] rows[k])[0] == SpanView { text: seq![' '], style: styles.indicator }
            &&& rows[k][1].style == styles.dim && rows[k][1].text.last() == '↪'
            &&& rows[k][2] == if gutter.len() > 2 {
                gutter[2]
            } else {
                SpanView { text: seq![' ', ' '], style: styles.plain }
            }
        } by {
            assert(wr[k].take(3) == p);
            assert(rows[k][0] == rows[k].take(3)[0]);
            assert(rows[k][1] == rows[k].take(3)[1]);
            assert(rows[k][2] == rows[k].take(3)[2]);
        }
    }
}

proof fn lemma_wrap_rows_continuations<S>(
    gutter: Seq<SpanView<S>>,
    content: Seq<SpanView<S>>,
    gutter_width: nat,
    limit: nat,
    styles: WrapStyles<S>,
    offset: nat,
    row_index: nat,
)
    ensures
        forall|k: int|
            0 <= k < wrap_rows(gutter, content, gutter_width, limit, styles, offset, row_index).len() && row_index
                + k > 0 ==> (#[trigger] wrap_rows(gutter, content, gutter_width, limit, styles, offset, row_index)[k]).take(3)
                == continuation_prefix(gutter, gutter_width, styles) && wrap_rows(gutter, content, gutter_width, limit, styles, offset, row_index)[k].len() >= 3,
    decreases spans_text(content).len() - offset,
{
    let text = spans_text(content);
    if offset < text.len() {
        let end = row_end(text, offset, limit);
        lemma_row_end_bounds(text, offset, limit);
        lemma_wrap_rows_continuations(gutter, content, gutter_width, limit, styles, end, row_index + 1);
        let rows = wrap_rows(gutter, content, gutter_width, limit, styles, offset, row_index);
        let rest = wrap_rows(gutter, content, gutter_width, limit, styles, end, row_index + 1);
        assert forall|k: int| 0 <= k < rows.len() && row_index + k > 0 implies (#[trigger] rows[k]).take(3)
            == continuation_prefix(gutter, gutter_width, styles) && rows[k].len() >= 3 by {
            if k > 0 {
                assert(rows[k] == rest[k - 1]);
                assert(row_index + 1 + (k - 1) > 0);
            } else {
                let p = continuation_prefix(gutter, gutter_width, styles);
                assert((p + slice_spans_spec(content, offset, end, 0)).take(3) =~= p);
            }
        }
    }
}

} // verus!
