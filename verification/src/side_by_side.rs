//! Pieces of the side-by-side diff rows: line-number fields, the gutter
//! prefixes of each column, padding of a column to its width, and blank
//! columns.

use vstd::prelude::*;
use crate::text::{
    copy_span, copy_spans, decimal, lines_view, push_decimal, spans_text, spans_view, spans_width, str_width, SpanView,
    StyledLine, StyledSpan,
};
use crate::word_wrap::blanks;
use crate::text::unicode_str_width;

verus! {

/// `text` right-aligned in a field `width` characters wide; text that is
/// wider is kept whole.
pub open spec fn right_aligned(text: Seq<char>, width: nat) -> Seq<char> {
    if text.len() < width {
        blanks((width - text.len()) as nat) + text
    } else {
        text
    }
}

/// The line-number field of a gutter: the number right-aligned in `width`
/// characters, or blanks when there is no number.
pub open spec fn lineno_field_spec(lineno: Option<u32>, width: nat) -> Seq<char> {
    match lineno {
        Some(n) => right_aligned(decimal(n as nat), width),
        None => blanks(width),
    }
}

/// Appends `n` blanks.
fn push_blanks(out: &mut String, n: usize)
    ensures
        final(out)@ == old(out)@ + blanks(n as nat),
{
    let ghost start = out@;
    for i in 0..n
        invariant
            out@ == start + blanks(i as nat),
    {
        out.push(' ');
        proof {
            assert(out@ =~= start + blanks((i + 1) as nat));
        }
    }
}

/// A string of `n` blanks.
pub fn blank_text(n: usize) -> (r: String)
    ensures
        r@ == blanks(n as nat),
{
    let mut s = String::new();
    push_blanks(&mut s, n);
    proof {
        assert(s@ =~= blanks(n as nat));
    }
    s
}

/// The line-number field of a gutter.
pub fn lineno_field(lineno: Option<u32>, width: usize) -> (r: String)
    ensures
        r@ == lineno_field_spec(lineno, width as nat),
{
    match lineno {
        Some(n) => {
            let mut digits = String::new();
            push_decimal(&mut digits, n as u64);
            let len = digits.as_str().unicode_len();
            proof {
                assert(digits@ =~= decimal(n as nat));
            }
            if len < width {
                let mut out = String::new();
                push_blanks(&mut out, width - len);
                out.append(digits.as_str());
                proof {
                    assert(out@ =~= right_aligned(decimal(n as nat), width as nat));
                }
                out
            } else {
                digits
            }
        },
        None => blank_text(width),
    }
}

/// The number shown for a line: its own number, or with relative numbering
/// its distance from the cursor row.
pub open spec fn display_lineno_spec(line: Option<u32>, relative: bool, row: usize, cursor: usize) -> Option<u32> {
    match line {
        Some(n) => Some(
            if relative {
                (if row >= cursor { row - cursor } else { cursor - row }) as u32
            } else {
                n
            },
        ),
        None => None,
    }
}

/// The number shown for a line.
pub fn display_lineno(line: Option<u32>, relative: bool, row: usize, cursor: usize) -> (r: Option<u32>)
    ensures
        r == display_lineno_spec(line, relative, row, cursor),
{
    match line {
        Some(n) => {
            if relative {
                let distance: usize = if row >= cursor {
                    row - cursor
                } else {
                    cursor - row
                };
                Some(distance as u32)
            } else {
                Some(n)
            }
        },
        None => None,
    }
}

/// One column of a side-by-side row: its line number, origin marker and
/// the marker's style.
pub struct SideSpec<S> {
    pub lineno: Option<u32>,
    pub marker: String,
    pub marker_style: S,
}

/// The gutter prefix of the left column: the cursor indicator, the old
/// line number and a blank, and the left marker.
pub open spec fn left_prefix_spec<S>(
    indicator: Seq<char>,
    indicator_style: S,
    dim: S,
    lineno: Option<u32>,
    marker: Seq<char>,
    marker_style: S,
    lw: nat,
) -> Seq<SpanView<S>> {
    seq![
        SpanView { text: indicator, style: indicator_style },
        SpanView { text: lineno_field_spec(lineno, lw).push(' '), style: dim },
        SpanView { text: marker, style: marker_style },
    ]
}

/// The gutter prefix of the right column: the divider, the new line number
/// and a blank, and the right marker.
pub open spec fn right_prefix_spec<S>(
    dim: S,
    lineno: Option<u32>,
    marker: Seq<char>,
    marker_style: S,
    lw: nat,
) -> Seq<SpanView<S>> {
    seq![
        SpanView { text: " │ "@, style: dim },
        SpanView { text: lineno_field_spec(lineno, lw).push(' '), style: dim },
        SpanView { text: marker, style: marker_style },
    ]
}

fn divider() -> (r: String)
    ensures
        r@ == " │ "@,
{
    let s = String::from_str(" │ ");
    s
}

/// The gutter prefixes of the two columns of a side-by-side row.
pub fn sbs_row_prefixes<S: Copy>(
    indicator: &str,
    indicator_style: S,
    dim: S,
    left: SideSpec<S>,
    right: SideSpec<S>,
    lw: usize,
) -> (r: (Vec<StyledSpan<S>>, Vec<StyledSpan<S>>))
    ensures
        spans_view(r.0@) == left_prefix_spec(
            indicator@,
            indicator_style,
            dim,
            left.lineno,
            left.marker@,
            left.marker_style,
            lw as nat,
        ),
        spans_view(r.1@) == right_prefix_spec(dim, right.lineno, right.marker@, right.marker_style, lw as nat),
{
    let mut old_num = lineno_field(left.lineno, lw);
    old_num.push(' ');
    let mut new_num = lineno_field(right.lineno, lw);
    new_num.push(' ');
    let ghost lm = left.marker@;
    let ghost rm = right.marker@;
    let mut left_prefix: Vec<StyledSpan<S>> = Vec::new();
    left_prefix.push(StyledSpan { content: String::from_str(indicator), style: indicator_style });
    left_prefix.push(StyledSpan { content: old_num, style: dim });
    left_prefix.push(StyledSpan { content: left.marker, style: left.marker_style });
    let mut right_prefix: Vec<StyledSpan<S>> = Vec::new();
    right_prefix.push(StyledSpan { content: divider(), style: dim });
    right_prefix.push(StyledSpan { content: new_num, style: dim });
    right_prefix.push(StyledSpan { content: right.marker, style: right.marker_style });
    proof {
        assert(spans_view(left_prefix@) =~= left_prefix_spec(
            indicator@,
            indicator_style,
            dim,
            left.lineno,
            lm,
            left.marker_style,
            lw as nat,
        ));
        assert(spans_view(right_prefix@) =~= right_prefix_spec(dim, right.lineno, rm, right.marker_style, lw as nat));
    }
    (left_prefix, right_prefix)
}

/// Continuation-row prefixes shared by every wrapped line: blank in place
/// of the line numbers (same width, so columns stay aligned) with the
/// center divider preserved.
pub fn sbs_blank_prefixes<S: Copy>(dim: S, plain: S, lw: usize) -> (r: (
    Vec<StyledSpan<S>>,
    Vec<StyledSpan<S>>,
))
    requires
        lw + 3 <= usize::MAX,
    ensures
        spans_view(r.0@) == seq![SpanView { text: blanks((lw + 3) as nat), style: plain }],
        spans_view(r.1@) == seq![
            SpanView { text: " │ "@, style: dim },
            SpanView { text: blanks((lw + 2) as nat), style: plain },
        ],
{
    let mut left: Vec<StyledSpan<S>> = Vec::new();
    left.push(StyledSpan { content: blank_text(lw + 3), style: plain });
    let mut right: Vec<StyledSpan<S>> = Vec::new();
    right.push(StyledSpan { content: divider(), style: dim });
    right.push(StyledSpan { content: blank_text(lw + 2), style: plain });
    proof {
        assert(spans_view(left@) =~= seq![SpanView { text: blanks((lw + 3) as nat), style: plain }]);
        assert(spans_view(right@) =~= seq![
            SpanView { text: " │ "@, style: dim },
            SpanView { text: blanks((lw + 2) as nat), style: plain },
        ]);
    }
    (left, right)
}

/// Adds an empty column: blanks for the line number, its separator, the
/// marker and the content.
pub fn add_empty_column_spans<S: Copy>(spans: &mut Vec<StyledSpan<S>>, content_width: usize, lw: usize, plain: S)
    requires
        lw + 2 + content_width <= usize::MAX,
    ensures
        spans_view(final(spans)@) == spans_view(old(spans)@).push(
            SpanView { text: blanks((lw + 2 + content_width) as nat), style: plain },
        ),
{
    let ghost before = spans_view(spans@);
    spans.push(StyledSpan { content: blank_text(lw + 1 + 1 + content_width), style: plain });
    proof {
        assert(spans_view(spans@) =~= before.push(
            SpanView { text: blanks((lw + 2 + content_width) as nat), style: plain },
        ));
    }
}

/// The spans of one column cell followed, when they are narrower than
/// `width`, by blanks in the pad style that fill the cell.
pub open spec fn pad_spans_spec<S>(spans: Seq<SpanView<S>>, width: nat, pad_style: S) -> Seq<SpanView<S>> {
    if spans_width(spans) < width {
        spans.push(SpanView { text: blanks((width - spans_width(spans)) as nat), style: pad_style })
    } else {
        spans
    }
}

/// Pads a column cell with blanks to `width` columns.
pub fn pad_spans_to_width<S: Copy>(spans: Vec<StyledSpan<S>>, width: usize, pad_style: S) -> (r: Vec<
    StyledSpan<S>,
>)
    ensures
        spans_view(r@) == pad_spans_spec(spans_view(spans@), width as nat, pad_style),
{
    let ghost all = spans_view(spans@);
    let mut total: usize = 0;
    let mut i: usize = 0;
    let mut wide = false;
    proof {
        assert(all.take(0) =~= Seq::<SpanView<S>>::empty());
        if all.len() == 0 {
            assert(all.take(0) =~= all);
        }
    }
    while i < spans.len()
        invariant_except_break
            !wide,
        invariant
            all == spans_view(spans@),
            i <= spans@.len(),
            total == spans_width(all.take(i as int)),
            total <= width,
            i == spans@.len() ==> total == spans_width(all),
        ensures
            wide ==> width <= spans_width(all),
            !wide ==> total == spans_width(all) && total <= width,
        decreases spans@.len() - i,
    {
        let w = str_width(spans[i].content.as_str());
        proof {
            assert(all.take(i + 1).drop_last() =~= all.take(i as int));
        }
        if w > width - total {
            proof {
                crate::text::lemma_spans_width_prefix_monotone(all, i + 1);
            }
            wide = true;
            break;
        }
        total = total + w;
        i = i + 1;
        proof {
            if i == spans@.len() {
                assert(all.take(i as int) =~= all);
            }
        }
    }
    proof {
        if !wide && spans@.len() == 0 {
            assert(all.take(0) =~= all);
        }
    }
    let mut out = spans;
    if !wide && total < width {
        let ghost before = spans_view(out@);
        out.push(StyledSpan { content: blank_text(width - total), style: pad_style });
        proof {
            assert(spans_view(out@) =~= before.push(
                SpanView { text: blanks((width - total) as nat), style: pad_style },
            ));
        }
    }
    out
}

/// Whether a diff line is unchanged, added or deleted.
#[derive(Clone, Copy, Debug, PartialEq, Eq, Structural)]
pub enum LineOrigin {
    Context,
    Addition,
    Deletion,
}

/// The style that pads a column cell.
#[derive(Clone, Copy, Debug, PartialEq, Eq, Structural)]
pub enum PadStyle {
    Context,
    Addition,
    /// An added line with syntax highlighting: the added-line colour on the
    /// syntax background.
    AdditionSyntax,
    Deletion,
    DeletionSyntax,
}

pub open spec fn column_pad_spec(origin: LineOrigin, highlighted: bool) -> PadStyle {
    match origin {
        LineOrigin::Context => PadStyle::Context,
        LineOrigin::Addition => if highlighted {
            PadStyle::AdditionSyntax
        } else {
            PadStyle::Addition
        },
        LineOrigin::Deletion => if highlighted {
            PadStyle::DeletionSyntax
        } else {
            PadStyle::Deletion
        },
    }
}

/// The style that pads a column cell of a line of this origin.
pub fn column_pad_style(origin: LineOrigin, highlighted: bool) -> (r: PadStyle)
    ensures
        r == column_pad_spec(origin, highlighted),
{
    match origin {
        LineOrigin::Context => PadStyle::Context,
        LineOrigin::Addition => {
            if highlighted {
                PadStyle::AdditionSyntax
            } else {
                PadStyle::Addition
            }
        },
        LineOrigin::Deletion => {
            if highlighted {
                PadStyle::DeletionSyntax
            } else {
                PadStyle::Deletion
            }
        },
    }
}

/// How a side-by-side row is drawn.
#[derive(Clone, Copy, Debug, PartialEq, Eq, Structural)]
pub enum SbsRowKind {
    /// The row's lines do not exist.
    Missing,
    /// A line of a commit message, drawn across both columns.
    CommitMessage,
    /// An unchanged line, drawn in both columns.
    Context,
    /// A deletion on the left and an addition on the right, either of them
    /// possibly missing.
    Changed,
}

pub open spec fn sbs_row_kind_spec(
    hunk_exists: bool,
    is_commit_message: bool,
    del_line_idx: Option<usize>,
    add_line_idx: Option<usize>,
    del_origin: Option<LineOrigin>,
    add_exists: bool,
) -> SbsRowKind {
    if !hunk_exists {
        SbsRowKind::Missing
    } else if is_commit_message {
        if add_exists || del_origin is Some {
            SbsRowKind::CommitMessage
        } else {
            SbsRowKind::Missing
        }
    } else if del_line_idx == add_line_idx && del_origin == Some(LineOrigin::Context) {
        SbsRowKind::Context
    } else {
        SbsRowKind::Changed
    }
}

/// How a side-by-side row is drawn, from what its annotation points at:
/// whether the hunk exists, whether the file is a commit message, the
/// line indices of both columns, the origin of the left line if it exists,
/// and whether the right line exists.
pub fn sbs_row_kind(
    hunk_exists: bool,
    is_commit_message: bool,
    del_line_idx: Option<usize>,
    add_line_idx: Option<usize>,
    del_origin: Option<LineOrigin>,
    add_exists: bool,
) -> (r: SbsRowKind)
    ensures
        r == sbs_row_kind_spec(hunk_exists, is_commit_message, del_line_idx, add_line_idx, del_origin, add_exists),
{
    if !hunk_exists {
        return SbsRowKind::Missing;
    }
    if is_commit_message {
        let has_line = add_exists || match del_origin {
            Some(_) => true,
            None => false,
        };
        return if has_line {
            SbsRowKind::CommitMessage
        } else {
            SbsRowKind::Missing
        };
    }
    let same_index = match (del_line_idx, add_line_idx) {
        (Some(a), Some(b)) => a == b,
        (None, None) => true,
        _ => false,
    };
    let del_is_context = match del_origin {
        Some(LineOrigin::Context) => true,
        _ => false,
    };
    if same_index && del_is_context {
        SbsRowKind::Context
    } else {
        SbsRowKind::Changed
    }
}

/// Each row of spans by its abstract value.
pub open spec fn rows_view<S>(rows: Seq<Vec<StyledSpan<S>>>) -> Seq<Seq<SpanView<S>>> {
    rows.map_values(|v: Vec<StyledSpan<S>>| spans_view(v@))
}

/// Row `row` of a column's wrapped rows, or nothing past its last row.
pub open spec fn row_or_empty<S>(rows: Seq<Seq<SpanView<S>>>, row: int) -> Seq<SpanView<S>> {
    if 0 <= row < rows.len() {
        rows[row]
    } else {
        Seq::empty()
    }
}

/// How many visual rows a wrapped side-by-side row takes: as many as its
/// taller column, and at least one.
pub open spec fn sbs_row_count(left: nat, right: nat) -> nat {
    let m = if left > right { left } else { right };
    if m > 1 {
        m
    } else {
        1
    }
}

/// Visual row `row` of a wrapped side-by-side row.
pub open spec fn sbs_visual_row<S>(
    left_rows: Seq<Seq<SpanView<S>>>,
    right_rows: Seq<Seq<SpanView<S>>>,
    prefixes: (Seq<SpanView<S>>, Seq<SpanView<S>>),
    blank_prefixes: (Seq<SpanView<S>>, Seq<SpanView<S>>),
    width: nat,
    left_pad: S,
    right_pad: S,
    row: int,
) -> Seq<SpanView<S>> {
    (if row == 0 { prefixes.0 } else { blank_prefixes.0 }) + pad_spans_spec(
        row_or_empty(left_rows, row),
        width,
        left_pad,
    ) + (if row == 0 { prefixes.1 } else { blank_prefixes.1 }) + pad_spans_spec(
        row_or_empty(right_rows, row),
        width,
        right_pad,
    )
}

/// The visual rows of a wrapped side-by-side row: each row holds the left
/// prefix, the left cell padded to the column width, the right prefix and
/// the right cell padded; the first row has the row's own prefixes, the
/// others blank continuation prefixes.
pub open spec fn sbs_wrapped_rows_spec<S>(
    left_rows: Seq<Seq<SpanView<S>>>,
    right_rows: Seq<Seq<SpanView<S>>>,
    prefixes: (Seq<SpanView<S>>, Seq<SpanView<S>>),
    blank_prefixes: (Seq<SpanView<S>>, Seq<SpanView<S>>),
    width: nat,
    left_pad: S,
    right_pad: S,
) -> Seq<Seq<SpanView<S>>> {
    Seq::new(
        sbs_row_count(left_rows.len(), right_rows.len()),
        |row: int|
            sbs_visual_row(left_rows, right_rows, prefixes, blank_prefixes, width, left_pad, right_pad, row),
    )
}

proof fn lemma_sbs_row_index<S>(
    left_rows: Seq<Seq<SpanView<S>>>,
    right_rows: Seq<Seq<SpanView<S>>>,
    prefixes: (Seq<SpanView<S>>, Seq<SpanView<S>>),
    blank_prefixes: (Seq<SpanView<S>>, Seq<SpanView<S>>),
    width: nat,
    left_pad: S,
    right_pad: S,
    row: int,
)
    requires
        0 <= row < sbs_row_count(left_rows.len(), right_rows.len()),
    ensures
        sbs_wrapped_rows_spec(left_rows, right_rows, prefixes, blank_prefixes, width, left_pad, right_pad)[row]
            == sbs_visual_row(left_rows, right_rows, prefixes, blank_prefixes, width, left_pad, right_pad, row),
        sbs_wrapped_rows_spec(left_rows, right_rows, prefixes, blank_prefixes, width, left_pad, right_pad).len()
            == sbs_row_count(left_rows.len(), right_rows.len()),
{
}

fn row_copy_or_empty<S: Copy>(rows: &Vec<Vec<StyledSpan<S>>>, row: usize) -> (r: Vec<StyledSpan<S>>)
    ensures
        spans_view(r@) == row_or_empty(rows_view(rows@), row as int),
{
    if row < rows.len() {
        copy_spans(&rows[row])
    } else {
        let r: Vec<StyledSpan<S>> = Vec::new();
        proof {
            assert(spans_view(r@) =~= Seq::<SpanView<S>>::empty());
        }
        r
    }
}

/// Lays a side-by-side row whose columns were wrapped into `left_rows` and
/// `right_rows` out as visual rows, each column padded to `width`.
pub fn sbs_wrapped_rows<S: Copy>(
    left_rows: &Vec<Vec<StyledSpan<S>>>,
    right_rows: &Vec<Vec<StyledSpan<S>>>,
    prefixes: (&Vec<StyledSpan<S>>, &Vec<StyledSpan<S>>),
    blank_prefixes: (&Vec<StyledSpan<S>>, &Vec<StyledSpan<S>>),
    width: usize,
    left_pad: S,
    right_pad: S,
) -> (r: Vec<StyledLine<S>>)
    ensures
        lines_view(r@) == sbs_wrapped_rows_spec(
            rows_view(left_rows@),
            rows_view(right_rows@),
            (spans_view(prefixes.0@), spans_view(prefixes.1@)),
            (spans_view(blank_prefixes.0@), spans_view(blank_prefixes.1@)),
            width as nat,
            left_pad,
            right_pad,
        ),
{
    let ghost spec_rows = sbs_wrapped_rows_spec(
        rows_view(left_rows@),
        rows_view(right_rows@),
        (spans_view(prefixes.0@), spans_view(prefixes.1@)),
        (spans_view(blank_prefixes.0@), spans_view(blank_prefixes.1@)),
        width as nat,
        left_pad,
        right_pad,
    );
    let longest = if left_rows.len() > right_rows.len() {
        left_rows.len()
    } else {
        right_rows.len()
    };
    let count = if longest > 1 {
        longest
    } else {
        1
    };
    proof {
        assert(rows_view(left_rows@).len() == left_rows@.len());
        assert(rows_view(right_rows@).len() == right_rows@.len());
        assert(count == sbs_row_count(left_rows@.len(), right_rows@.len()));
        assert(spec_rows.len() == count);
    }
    let mut out: Vec<StyledLine<S>> = Vec::new();
    for row in 0..count
        invariant
            count == spec_rows.len(),
            count == sbs_row_count(rows_view(left_rows@).len(), rows_view(right_rows@).len()),
            spec_rows == sbs_wrapped_rows_spec(
                rows_view(left_rows@),
                rows_view(right_rows@),
                (spans_view(prefixes.0@), spans_view(prefixes.1@)),
                (spans_view(blank_prefixes.0@), spans_view(blank_prefixes.1@)),
                width as nat,
                left_pad,
                right_pad,
            ),
            lines_view(out@) == spec_rows.take(row as int),
    {
        let left = pad_spans_to_width(row_copy_or_empty(left_rows, row), width, left_pad);
        let right = pad_spans_to_width(row_copy_or_empty(right_rows, row), width, right_pad);
        let (mut line, right_prefix) = if row == 0 {
            (copy_spans(prefixes.0), copy_spans(prefixes.1))
        } else {
            (copy_spans(blank_prefixes.0), copy_spans(blank_prefixes.1))
        };
        let ghost lp = spans_view(line@);
        let ghost rp = spans_view(right_prefix@);
        let ghost lv = spans_view(left@);
        let ghost rv = spans_view(right@);
        let mut left = left;
        let mut right_prefix = right_prefix;
        let mut right = right;
        line.append(&mut left);
        line.append(&mut right_prefix);
        line.append(&mut right);
        let built = StyledLine { spans: line };
        proof {
            let lrows = rows_view(left_rows@);
            let rrows = rows_view(right_rows@);
            assert(lv == pad_spans_spec(row_or_empty(lrows, row as int), width as nat, left_pad));
            assert(rv == pad_spans_spec(row_or_empty(rrows, row as int), width as nat, right_pad));
            assert(lp == if row == 0 { spans_view(prefixes.0@) } else { spans_view(blank_prefixes.0@) });
            assert(rp == if row == 0 { spans_view(prefixes.1@) } else { spans_view(blank_prefixes.1@) });
            assert(built@ =~= lp + lv + rp + rv);
            lemma_sbs_row_index(
                lrows,
                rrows,
                (spans_view(prefixes.0@), spans_view(prefixes.1@)),
                (spans_view(blank_prefixes.0@), spans_view(blank_prefixes.1@)),
                width as nat,
                left_pad,
                right_pad,
                row as int,
            );
            assert(spec_rows[row as int] == sbs_visual_row(
                lrows,
                rrows,
                (spans_view(prefixes.0@), spans_view(prefixes.1@)),
                (spans_view(blank_prefixes.0@), spans_view(blank_prefixes.1@)),
                width as nat,
                left_pad,
                right_pad,
                row as int,
            ));
            assert(built@ == spec_rows[row as int]);
        }
        let ghost before = lines_view(out@);
        out.push(built);
        proof {
            assert(lines_view(out@) =~= before.push(built@));
            assert(spec_rows.take(row + 1) =~= spec_rows.take(row as int).push(spec_rows[row as int]));
        }
    }
    proof {
        assert(spec_rows.take(count as int) =~= spec_rows);
    }
    out
}

/// Highlighted pieces of a line, each a style and its text, as spans.
pub open spec fn pairs_view<S>(pairs: Seq<(S, String)>) -> Seq<SpanView<S>> {
    pairs.map_values(|p: (S, String)| SpanView { text: p.1@, style: p.0 })
}

/// The content spans of a diff line: its highlighted pieces where it has
/// them, else its whole text in the base style of its origin.
pub open spec fn content_spans_spec<S>(
    highlighted: Option<&Vec<(S, String)>>,
    content: Seq<char>,
    base: S,
) -> Seq<SpanView<S>> {
    match highlighted {
        Some(pairs) => pairs_view(pairs@),
        None => seq![SpanView { text: content, style: base }],
    }
}

/// The content spans of a diff line, before any search highlighting.
pub fn diff_content_spans<S: Copy>(highlighted: Option<&Vec<(S, String)>>, content: &str, base: S) -> (r: Vec<
    StyledSpan<S>,
>)
    ensures
        spans_view(r@) == content_spans_spec(highlighted, content@, base),
{
    let mut out: Vec<StyledSpan<S>> = Vec::new();
    match highlighted {
        Some(pairs) => {
            for i in 0..pairs.len()
                invariant
                    out@.len() == i,
                    forall|j: int|
                        0 <= j < i ==> #[trigger] out@[j]@ == (SpanView { text: pairs@[j].1@, style: pairs@[j].0 }),
            {
                let (style, text) = &pairs[i];
                out.push(StyledSpan { content: text.clone(), style: *style });
            }
            proof {
                assert(spans_view(out@) =~= pairs_view(pairs@));
            }
        },
        None => {
            out.push(StyledSpan { content: String::from_str(content), style: base });
            proof {
                assert(spans_view(out@) =~= seq![SpanView { text: content@, style: base }]);
            }
        },
    }
    out
}

/// What wrapping needs of a side-by-side row: the content of each column,
/// the gutter prefix of each, and the style that pads each column.
pub struct SbsRowMeta<S> {
    pub left_content: Vec<StyledSpan<S>>,
    pub right_content: Vec<StyledSpan<S>>,
    pub left_prefix: Vec<StyledSpan<S>>,
    pub right_prefix: Vec<StyledSpan<S>>,
    pub left_pad_style: S,
    pub right_pad_style: S,
}

/// A line present in one column of a changed row: its content spans, the
/// number shown for it, the style of its origin and the style that pads
/// its column.
pub struct ChangedSide<S> {
    pub content: Vec<StyledSpan<S>>,
    pub lineno: Option<u32>,
    pub line_style: S,
    pub pad_style: S,
}

/// The content of a column of a changed row: none where its line is
/// missing.
pub open spec fn side_content<S>(side: Option<ChangedSide<S>>) -> Seq<SpanView<S>> {
    match side {
        Some(line) => spans_view(line.content@),
        None => Seq::empty(),
    }
}

/// The pad style of a column of a changed row: the plain style where its
/// line is missing.
pub open spec fn side_pad<S>(side: Option<ChangedSide<S>>, plain: S) -> S {
    match side {
        Some(line) => line.pad_style,
        None => plain,
    }
}

/// The line number of a column of a changed row.
pub open spec fn side_lineno<S>(side: Option<ChangedSide<S>>) -> Option<u32> {
    match side {
        Some(line) => line.lineno,
        None => None,
    }
}

/// The marker of a column of a changed row: a bar where its line exists.
pub open spec fn side_marker<S>(side: Option<ChangedSide<S>>) -> Seq<char> {
    match side {
        Some(_) => "▌"@,
        None => " "@,
    }
}

/// The marker style of a column of a changed row.
pub open spec fn side_marker_style<S>(side: Option<ChangedSide<S>>, plain: S) -> S {
    match side {
        Some(line) => line.line_style,
        None => plain,
    }
}

fn side_parts<S: Copy>(side: Option<ChangedSide<S>>, plain: S) -> (r: (Vec<StyledSpan<S>>, S, SideSpec<S>))
    ensures
        spans_view(r.0@) == side_content(side),
        r.1 == side_pad(side, plain),
        r.2.lineno == side_lineno(side),
        r.2.marker@ == side_marker(side),
        r.2.marker_style == side_marker_style(side, plain),
{
    match side {
        Some(line) => (
            line.content,
            line.pad_style,
            SideSpec { lineno: line.lineno, marker: String::from_str("▌"), marker_style: line.line_style },
        ),
        None => {
            let empty: Vec<StyledSpan<S>> = Vec::new();
            proof {
                assert(spans_view(empty@) =~= Seq::<SpanView<S>>::empty());
            }
            (empty, plain, SideSpec { lineno: None, marker: String::from_str(" "), marker_style: plain })
        },
    }
}

/// The wrapping metadata of a changed row: a deletion on the left and an
/// addition on the right, either possibly missing.
pub fn changed_row_meta<S: Copy>(
    indicator: &str,
    indicator_style: S,
    dim: S,
    plain: S,
    del: Option<ChangedSide<S>>,
    add: Option<ChangedSide<S>>,
    lw: usize,
) -> (r: SbsRowMeta<S>)
    ensures
        spans_view(r.left_content@) == side_content(del),
        spans_view(r.right_content@) == side_content(add),
        r.left_pad_style == side_pad(del, plain),
        r.right_pad_style == side_pad(add, plain),
        spans_view(r.left_prefix@) == left_prefix_spec(
            indicator@,
            indicator_style,
            dim,
            side_lineno(del),
            side_marker(del),
            side_marker_style(del, plain),
            lw as nat,
        ),
        spans_view(r.right_prefix@) == right_prefix_spec(
            dim,
            side_lineno(add),
            side_marker(add),
            side_marker_style(add, plain),
            lw as nat,
        ),
{
    let (left_content, left_pad, left_side) = side_parts(del, plain);
    let (right_content, right_pad, right_side) = side_parts(add, plain);
    let (left_prefix, right_prefix) = sbs_row_prefixes(indicator, indicator_style, dim, left_side, right_side, lw);
    SbsRowMeta { left_content, right_content, left_prefix, right_prefix, left_pad_style: left_pad, right_pad_style: right_pad }
}

/// The wrapping metadata of an unchanged row: the same content in both
/// columns, both padded in the context style, with blank markers.
pub fn context_row_meta<S: Copy>(
    indicator: &str,
    indicator_style: S,
    dim: S,
    style: S,
    content: Vec<StyledSpan<S>>,
    old_lineno: Option<u32>,
    new_lineno: Option<u32>,
    lw: usize,
) -> (r: SbsRowMeta<S>)
    ensures
        spans_view(r.left_content@) == spans_view(content@),
        spans_view(r.right_content@) == spans_view(content@),
        r.left_pad_style == style,
        r.right_pad_style == style,
        spans_view(r.left_prefix@) == left_prefix_spec(indicator@, indicator_style, dim, old_lineno, " "@, style, lw as nat),
        spans_view(r.right_prefix@) == right_prefix_spec(dim, new_lineno, " "@, style, lw as nat),
{
    let left_side = SideSpec { lineno: old_lineno, marker: String::from_str(" "), marker_style: style };
    let right_side = SideSpec { lineno: new_lineno, marker: String::from_str(" "), marker_style: style };
    let (left_prefix, right_prefix) = sbs_row_prefixes(indicator, indicator_style, dim, left_side, right_side, lw);
    let right_content = copy_spans(&content);
    SbsRowMeta { left_content: content, right_content, left_prefix, right_prefix, left_pad_style: style, right_pad_style: style }
}

/// The wrapping metadata of an expanded context line: the same content in
/// both columns, and gutters whose numbers and markers take the style of
/// expanded context.
pub fn expanded_row_meta<S: Copy>(
    indicator: &str,
    indicator_style: S,
    dim: S,
    style: S,
    content: Vec<StyledSpan<S>>,
    old_lineno: Option<u32>,
    new_lineno: Option<u32>,
    lw: usize,
) -> (r: SbsRowMeta<S>)
    ensures
        spans_view(r.left_content@) == spans_view(content@),
        spans_view(r.right_content@) == spans_view(content@),
        r.left_pad_style == style,
        r.right_pad_style == style,
        spans_view(r.left_prefix@) == left_prefix_spec(indicator@, indicator_style, style, old_lineno, " "@, style, lw as nat),
        spans_view(r.right_prefix@) == seq![
            SpanView { text: " │ "@, style: dim },
            SpanView { text: lineno_field_spec(new_lineno, lw as nat).push(' '), style: style },
            SpanView { text: " "@, style: style },
        ],
{
    let left_side = SideSpec { lineno: old_lineno, marker: String::from_str(" "), marker_style: style };
    let right_side = SideSpec { lineno: new_lineno, marker: String::from_str(" "), marker_style: style };
    let (left_prefix, numbered) = sbs_row_prefixes(indicator, indicator_style, style, left_side, right_side, lw);
    let ghost nv = spans_view(numbered@);
    proof {
        assert(nv.len() == 3);
        assert(numbered@.len() == nv.len());
    }
    let mut right_prefix: Vec<StyledSpan<S>> = Vec::new();
    right_prefix.push(StyledSpan { content: divider(), style: dim });
    right_prefix.push(copy_span(&numbered[1]));
    right_prefix.push(copy_span(&numbered[2]));
    proof {
        assert(nv[1] == numbered@[1]@);
        assert(nv[2] == numbered@[2]@);
        assert(spans_view(right_prefix@) =~= seq![
            SpanView { text: " │ "@, style: dim },
            SpanView { text: lineno_field_spec(new_lineno, lw as nat).push(' '), style: style },
            SpanView { text: " "@, style: style },
        ]);
    }
    let right_content = copy_spans(&content);
    SbsRowMeta { left_content: content, right_content, left_prefix, right_prefix, left_pad_style: style, right_pad_style: style }
}

/// Adds the column of a present line: its number and a blank in the dim
/// style, the bar marker in the style of its origin, and its content cell.
pub fn add_line_column_spans<S: Copy>(
    spans: &mut Vec<StyledSpan<S>>,
    lineno: Option<u32>,
    lw: usize,
    dim: S,
    marker_style: S,
    cell: Vec<StyledSpan<S>>,
)
    ensures
        spans_view(final(spans)@) == spans_view(old(spans)@) + seq![
            SpanView { text: lineno_field_spec(lineno, lw as nat).push(' '), style: dim },
            SpanView { text: "▌"@, style: marker_style },
        ] + spans_view(cell@),
{
    let ghost before = spans_view(spans@);
    let mut number = lineno_field(lineno, lw);
    number.push(' ');
    spans.push(StyledSpan { content: number, style: dim });
    spans.push(StyledSpan { content: String::from_str("▌"), style: marker_style });
    let ghost gutter = spans_view(spans@);
    let mut cell = cell;
    let ghost cv = spans_view(cell@);
    spans.append(&mut cell);
    proof {
        assert(gutter =~= before + seq![
            SpanView { text: lineno_field_spec(lineno, lw as nat).push(' '), style: dim },
            SpanView { text: "▌"@, style: marker_style },
        ]);
        assert(spans_view(spans@) =~= gutter + cv);
    }
}

/// The spans of an unchanged row drawn without wrapping: in each column
/// the gutter (numbers in `number_style`) followed by the same cell.
pub open spec fn unchanged_row_spec<S>(
    indicator: Seq<char>,
    indicator_style: S,
    number_style: S,
    dim: S,
    style: S,
    old_lineno: Option<u32>,
    new_lineno: Option<u32>,
    lw: nat,
    cell: Seq<SpanView<S>>,
) -> Seq<SpanView<S>> {
    seq![
        SpanView { text: indicator, style: indicator_style },
        SpanView { text: lineno_field_spec(old_lineno, lw).push(' '), style: number_style },
        SpanView { text: " "@, style: style },
    ] + cell + seq![
        SpanView { text: " │ "@, style: dim },
        SpanView { text: lineno_field_spec(new_lineno, lw).push(' '), style: number_style },
        SpanView { text: " "@, style: style },
    ] + cell
}

/// Lays out an unchanged row (a context line, or an expanded one) without
/// wrapping.
pub fn unchanged_row_spans<S: Copy>(
    indicator: &str,
    indicator_style: S,
    number_style: S,
    dim: S,
    style: S,
    old_lineno: Option<u32>,
    new_lineno: Option<u32>,
    lw: usize,
    cell: &Vec<StyledSpan<S>>,
) -> (r: Vec<StyledSpan<S>>)
    ensures
        spans_view(r@) == unchanged_row_spec(
            indicator@,
            indicator_style,
            number_style,
            dim,
            style,
            old_lineno,
            new_lineno,
            lw as nat,
            spans_view(cell@),
        ),
{
    let ghost cv = spans_view(cell@);
    let mut old_num = lineno_field(old_lineno, lw);
    old_num.push(' ');
    let mut new_num = lineno_field(new_lineno, lw);
    new_num.push(' ');
    let mut out: Vec<StyledSpan<S>> = Vec::new();
    out.push(StyledSpan { content: String::from_str(indicator), style: indicator_style });
    out.push(StyledSpan { content: old_num, style: number_style });
    out.push(StyledSpan { content: String::from_str(" "), style: style });
    let ghost head = spans_view(out@);
    let mut first = copy_spans(cell);
    out.append(&mut first);
    let ghost with_cell = spans_view(out@);
    out.push(StyledSpan { content: divider(), style: dim });
    out.push(StyledSpan { content: new_num, style: number_style });
    out.push(StyledSpan { content: String::from_str(" "), style: style });
    let ghost with_gutter = spans_view(out@);
    let mut second = copy_spans(cell);
    out.append(&mut second);
    proof {
        let left = seq![
            SpanView { text: indicator@, style: indicator_style },
            SpanView { text: lineno_field_spec(old_lineno, lw as nat).push(' '), style: number_style },
            SpanView { text: " "@, style: style },
        ];
        let right = seq![
            SpanView { text: " │ "@, style: dim },
            SpanView { text: lineno_field_spec(new_lineno, lw as nat).push(' '), style: number_style },
            SpanView { text: " "@, style: style },
        ];
        assert(head =~= left);
        assert(with_cell =~= left + cv);
        assert(with_gutter =~= left + cv + right);
        assert(spans_view(out@) =~= left + cv + right + cv);
    }
    out
}

/// Lays out a line of a commit message: the cursor indicator, two blanks
/// and the line's text, both in the context style.
pub fn commit_message_row_spans<S: Copy>(indicator: &str, indicator_style: S, style: S, content: &str) -> (r: Vec<
    StyledSpan<S>,
>)
    ensures
        spans_view(r@) == seq![
            SpanView { text: indicator@, style: indicator_style },
            SpanView { text: "  "@, style: style },
            SpanView { text: content@, style: style },
        ],
{
    let mut out: Vec<StyledSpan<S>> = Vec::new();
    out.push(StyledSpan { content: String::from_str(indicator), style: indicator_style });
    out.push(StyledSpan { content: String::from_str("  "), style: style });
    out.push(StyledSpan { content: String::from_str(content), style: style });
    proof {
        assert(spans_view(out@) =~= seq![
            SpanView { text: indicator@, style: indicator_style },
            SpanView { text: "  "@, style: style },
            SpanView { text: content@, style: style },
        ]);
    }
    out
}

proof fn lemma_lineno_field_len(lineno: Option<u32>, lw: nat)
    requires
        lineno matches Some(n) ==> decimal(n as nat).len() <= lw,
    ensures
        lineno_field_spec(lineno, lw).len() == lw,
{
}

/// Continuation prefixes keep the columns aligned: where the cursor
/// indicator and both markers are single characters and the line numbers
/// fit into `lw` digits, the blank prefixes of a wrapped row hold as many
/// characters as the row's own prefixes, in each column.
pub proof fn law_blank_prefixes_keep_columns_aligned<S>(
    indicator: Seq<char>,
    indicator_style: S,
    dim: S,
    plain: S,
    left: (Option<u32>, Seq<char>, S),
    right: (Option<u32>, Seq<char>, S),
    lw: nat,
)
    requires
        indicator.len() == 1,
        left.1.len() == 1,
        right.1.len() == 1,
        left.0 matches Some(n) ==> decimal(n as nat).len() <= lw,
        right.0 matches Some(n) ==> decimal(n as nat).len() <= lw,
    ensures
        spans_text(left_prefix_spec(indicator, indicator_style, dim, left.0, left.1, left.2, lw)).len()
            == spans_text(seq![SpanView { text: blanks(lw + 3), style: plain }]).len(),
        spans_text(right_prefix_spec(dim, right.0, right.1, right.2, lw)).len() == spans_text(
            seq![
                SpanView { text: " │ "@, style: dim },
                SpanView { text: blanks(lw + 2), style: plain },
            ],
        ).len(),
{
    reveal_strlit(" │ ");
    reveal_with_fuel(spans_text, 4);
    lemma_lineno_field_len(left.0, lw);
    lemma_lineno_field_len(right.0, lw);
    let lp = left_prefix_spec(indicator, indicator_style, dim, left.0, left.1, left.2, lw);
    assert(lp.drop_last().drop_last().drop_last() =~= Seq::<SpanView<S>>::empty());
    let rp = right_prefix_spec(dim, right.0, right.1, right.2, lw);
    assert(rp.drop_last().drop_last().drop_last() =~= Seq::<SpanView<S>>::empty());
    let bl = seq![SpanView { text: blanks(lw + 3), style: plain }];
    assert(bl.drop_last() =~= Seq::<SpanView<S>>::empty());
    let br = seq![
        SpanView { text: " │ "@, style: dim },
        SpanView { text: blanks(lw + 2), style: plain },
    ];
    assert(br.drop_last().drop_last() =~= Seq::<SpanView<S>>::empty());
}

/// A line of a side-by-side row, as far as laying the row out needs it:
/// its origin, the numbers shown for it in the old and new version, its
/// text and highlighted pieces, its content cell as fitted to the column,
/// and the style that pads its column.
pub struct SbsLine<S> {
    pub origin: LineOrigin,
    pub old_lineno: Option<u32>,
    pub new_lineno: Option<u32>,
    pub content: String,
    pub highlighted: Option<Vec<(S, String)>>,
    pub cell: Vec<StyledSpan<S>>,
    pub pad_style: S,
}

/// The styles of a side-by-side row.
#[derive(Clone, Copy, Debug, PartialEq, Eq, Structural)]
pub struct SbsStyles<S> {
    pub indicator: S,
    pub dim: S,
    pub plain: S,
    pub context: S,
    pub addition: S,
    pub deletion: S,
}

/// The wrapping metadata of a row by its abstract value.
pub struct SbsMetaView<S> {
    pub left_content: Seq<SpanView<S>>,
    pub right_content: Seq<SpanView<S>>,
    pub left_prefix: Seq<SpanView<S>>,
    pub right_prefix: Seq<SpanView<S>>,
    pub left_pad_style: S,
    pub right_pad_style: S,
}

pub open spec fn meta_view<S>(m: SbsRowMeta<S>) -> SbsMetaView<S> {
    SbsMetaView {
        left_content: spans_view(m.left_content@),
        right_content: spans_view(m.right_content@),
        left_prefix: spans_view(m.left_prefix@),
        right_prefix: spans_view(m.right_prefix@),
        left_pad_style: m.left_pad_style,
        right_pad_style: m.right_pad_style,
    }
}

/// The content spans of a line in the base style `base`.
pub open spec fn line_content_spec<S>(line: SbsLine<S>, base: S) -> Seq<SpanView<S>> {
    match line.highlighted {
        Some(pairs) => pairs_view(pairs@),
        None => seq![SpanView { text: line.content@, style: base }],
    }
}

fn line_content<S: Copy>(line: &SbsLine<S>, base: S) -> (r: Vec<StyledSpan<S>>)
    ensures
        spans_view(r@) == line_content_spec(*line, base),
{
    match &line.highlighted {
        Some(pairs) => diff_content_spans(Some(pairs), line.content.as_str(), base),
        None => diff_content_spans(None, line.content.as_str(), base),
    }
}

/// One column of a changed row drawn without wrapping: the line's number,
/// marker and cell, or blanks where the line is missing.
pub open spec fn column_spec<S>(
    line: Option<SbsLine<S>>,
    lineno: Option<u32>,
    lw: nat,
    content_width: nat,
    dim: S,
    marker_style: S,
    plain: S,
) -> Seq<SpanView<S>> {
    match line {
        Some(l) => seq![
            SpanView { text: lineno_field_spec(lineno, lw).push(' '), style: dim },
            SpanView { text: "▌"@, style: marker_style },
        ] + spans_view(l.cell@),
        None => seq![SpanView { text: blanks(lw + 2 + content_width), style: plain }],
    }
}

pub open spec fn old_lineno_of<S>(line: Option<SbsLine<S>>) -> Option<u32> {
    match line {
        Some(l) => l.old_lineno,
        None => None,
    }
}

pub open spec fn new_lineno_of<S>(line: Option<SbsLine<S>>) -> Option<u32> {
    match line {
        Some(l) => l.new_lineno,
        None => None,
    }
}

/// A side-by-side row drawn without wrapping, and its wrapping metadata:
/// nothing where its lines do not exist; a commit message line across the
/// row; an unchanged line in both columns; otherwise the deletion on the
/// left and the addition on the right, each possibly blank.
pub open spec fn sbs_row_spec<S>(
    indicator: Seq<char>,
    hunk_exists: bool,
    is_commit_message: bool,
    del_line_idx: Option<usize>,
    add_line_idx: Option<usize>,
    del: Option<SbsLine<S>>,
    add: Option<SbsLine<S>>,
    content_width: nat,
    lw: nat,
    st: SbsStyles<S>,
) -> (Seq<SpanView<S>>, Option<SbsMetaView<S>>) {
    let del_origin = match del {
        Some(l) => Some(l.origin),
        None => None,
    };
    match sbs_row_kind_spec(hunk_exists, is_commit_message, del_line_idx, add_line_idx, del_origin, add is Some) {
        SbsRowKind::Missing => (Seq::empty(), None),
        SbsRowKind::CommitMessage => {
            let line = if add is Some { add->0 } else { del->0 };
            (
                seq![
                    SpanView { text: indicator, style: st.indicator },
                    SpanView { text: "  "@, style: st.context },
                    SpanView { text: line.content@, style: st.context },
                ],
                None,
            )
        },
        SbsRowKind::Context => {
            let line = del->0;
            let content = line_content_spec(line, st.context);
            (
                unchanged_row_spec(
                    indicator,
                    st.indicator,
                    st.dim,
                    st.dim,
                    st.context,
                    line.old_lineno,
                    line.new_lineno,
                    lw,
                    spans_view(line.cell@),
                ),
                Some(
                    SbsMetaView {
                        left_content: content,
                        right_content: content,
                        left_prefix: left_prefix_spec(indicator, st.indicator, st.dim, line.old_lineno, " "@, st.context, lw),
                        right_prefix: right_prefix_spec(st.dim, line.new_lineno, " "@, st.context, lw),
                        left_pad_style: st.context,
                        right_pad_style: st.context,
                    },
                ),
            )
        },
        SbsRowKind::Changed => (
            seq![SpanView { text: indicator, style: st.indicator }] + column_spec(
                del,
                old_lineno_of(del),
                lw,
                content_width,
                st.dim,
                st.deletion,
                st.plain,
            ) + seq![SpanView { text: " │ "@, style: st.dim }] + column_spec(
                add,
                new_lineno_of(add),
                lw,
                content_width,
                st.dim,
                st.addition,
                st.plain,
            ),
            Some(
                SbsMetaView {
                    left_content: match del {
                        Some(l) => line_content_spec(l, st.deletion),
                        None => Seq::empty(),
                    },
                    right_content: match add {
                        Some(l) => line_content_spec(l, st.addition),
                        None => Seq::empty(),
                    },
                    left_prefix: left_prefix_spec(
                        indicator,
                        st.indicator,
                        st.dim,
                        old_lineno_of(del),
                        if del is Some { "▌"@ } else { " "@ },
                        if del is Some { st.deletion } else { st.plain },
                        lw,
                    ),
                    right_prefix: right_prefix_spec(
                        st.dim,
                        new_lineno_of(add),
                        if add is Some { "▌"@ } else { " "@ },
                        if add is Some { st.addition } else { st.plain },
                        lw,
                    ),
                    left_pad_style: match del {
                        Some(l) => l.pad_style,
                        None => st.plain,
                    },
                    right_pad_style: match add {
                        Some(l) => l.pad_style,
                        None => st.plain,
                    },
                },
            ),
        ),
    }
}

fn add_column<S: Copy>(
    spans: &mut Vec<StyledSpan<S>>,
    line: &Option<SbsLine<S>>,
    lineno: Option<u32>,
    lw: usize,
    content_width: usize,
    dim: S,
    marker_style: S,
    plain: S,
)
    requires
        lw + 2 + content_width <= usize::MAX,
    ensures
        spans_view(final(spans)@) == spans_view(old(spans)@) + column_spec(
            *line,
            lineno,
            lw as nat,
            content_width as nat,
            dim,
            marker_style,
            plain,
        ),
{
    match line {
        Some(l) => {
            let ghost before = spans_view(spans@);
            add_line_column_spans(spans, lineno, lw, dim, marker_style, copy_spans(&l.cell));
            proof {
                assert(spans_view(spans@) =~= before + column_spec(
                    *line,
                    lineno,
                    lw as nat,
                    content_width as nat,
                    dim,
                    marker_style,
                    plain,
                ));
            }
        },
        None => {
            let ghost before = spans_view(spans@);
            add_empty_column_spans(spans, content_width, lw, plain);
            proof {
                assert(spans_view(spans@) =~= before + column_spec(
                    *line,
                    lineno,
                    lw as nat,
                    content_width as nat,
                    dim,
                    marker_style,
                    plain,
                ));
            }
        },
    }
}

fn changed_side<S: Copy>(line: &Option<SbsLine<S>>, old_side: bool, line_style: S) -> (r: Option<ChangedSide<S>>)
    ensures
        side_content(r) == match *line {
            Some(l) => line_content_spec(l, line_style),
            None => Seq::empty(),
        },
        side_pad(r, line_style) == match *line {
            Some(l) => l.pad_style,
            None => line_style,
        },
        r is Some <==> line is Some,
        side_lineno(r) == if old_side { old_lineno_of(*line) } else { new_lineno_of(*line) },
        r matches Some(c) ==> c.line_style == line_style && c.pad_style == line->0.pad_style,
{
    match line {
        Some(l) => Some(
            ChangedSide {
                content: line_content(l, line_style),
                lineno: if old_side {
                    l.old_lineno
                } else {
                    l.new_lineno
                },
                line_style,
                pad_style: l.pad_style,
            },
        ),
        None => None,
    }
}

/// Lays out one side-by-side row: the row drawn without wrapping and, for
/// rows that hold diff lines, what wrapping it needs.
pub fn sbs_row<S: Copy>(
    indicator: &str,
    hunk_exists: bool,
    is_commit_message: bool,
    del_line_idx: Option<usize>,
    add_line_idx: Option<usize>,
    del: Option<SbsLine<S>>,
    add: Option<SbsLine<S>>,
    content_width: usize,
    lw: usize,
    st: &SbsStyles<S>,
) -> (r: (Vec<StyledSpan<S>>, Option<SbsRowMeta<S>>))
    requires
        lw + 2 + content_width <= usize::MAX,
    ensures
        ({
            let expected = sbs_row_spec(
                indicator@,
                hunk_exists,
                is_commit_message,
                del_line_idx,
                add_line_idx,
                del,
                add,
                content_width as nat,
                lw as nat,
                *st,
            );
            &&& spans_view(r.0@) == expected.0
            &&& match r.1 {
                Some(m) => expected.1 == Some(meta_view(m)),
                None => expected.1 is None,
            }
        }),
{
    let del_origin = match &del {
        Some(l) => Some(l.origin),
        None => None,
    };
    let kind = sbs_row_kind(
        hunk_exists,
        is_commit_message,
        del_line_idx,
        add_line_idx,
        del_origin,
        match &add {
            Some(_) => true,
            None => false,
        },
    );
    match kind {
        SbsRowKind::Missing => {
            let r: Vec<StyledSpan<S>> = Vec::new();
            proof {
                assert(spans_view(r@) =~= Seq::<SpanView<S>>::empty());
            }
            (r, None)
        },
        SbsRowKind::CommitMessage => {
            let content = match &add {
                Some(l) => l.content.as_str(),
                None => match &del {
                    Some(l) => l.content.as_str(),
                    None => "",
                },
            };
            (commit_message_row_spans(indicator, st.indicator, st.context, content), None)
        },
        SbsRowKind::Context => {
            match &del {
                Some(line) => {
                    let spans = unchanged_row_spans(
                        indicator,
                        st.indicator,
                        st.dim,
                        st.dim,
                        st.context,
                        line.old_lineno,
                        line.new_lineno,
                        lw,
                        &line.cell,
                    );
                    let content = line_content(line, st.context);
                    let meta = context_row_meta(
                        indicator,
                        st.indicator,
                        st.dim,
                        st.context,
                        content,
                        line.old_lineno,
                        line.new_lineno,
                        lw,
                    );
                    proof {
                        assert(meta_view(meta).left_content == line_content_spec(*line, st.context));
                    }
                    (spans, Some(meta))
                },
                None => {
                    let r: Vec<StyledSpan<S>> = Vec::new();
                    (r, None)
                },
            }
        },
        SbsRowKind::Changed => {
            let mut spans: Vec<StyledSpan<S>> = Vec::new();
            spans.push(StyledSpan { content: String::from_str(indicator), style: st.indicator });
            let ghost head = spans_view(spans@);
            add_column(&mut spans, &del, old_lineno_of_exec(&del), lw, content_width, st.dim, st.deletion, st.plain);
            let ghost with_left = spans_view(spans@);
            spans.push(StyledSpan { content: divider(), style: st.dim });
            let ghost with_divider = spans_view(spans@);
            add_column(&mut spans, &add, new_lineno_of_exec(&add), lw, content_width, st.dim, st.addition, st.plain);
            let left_side = changed_side(&del, true, st.deletion);
            let right_side = changed_side(&add, false, st.addition);
            let ghost ls = left_side;
            let ghost rs = right_side;
            let meta = changed_row_meta(indicator, st.indicator, st.dim, st.plain, left_side, right_side, lw);
            proof {
                assert(head =~= seq![SpanView { text: indicator@, style: st.indicator }]);
                assert(with_divider =~= with_left + seq![SpanView { text: " │ "@, style: st.dim }]);
                assert(side_pad(ls, st.plain) == match del {
                    Some(l) => l.pad_style,
                    None => st.plain,
                });
                assert(side_pad(rs, st.plain) == match add {
                    Some(l) => l.pad_style,
                    None => st.plain,
                });
                assert(side_marker(ls) == if del is Some { "▌"@ } else { " "@ });
                assert(side_marker(rs) == if add is Some { "▌"@ } else { " "@ });
                assert(side_marker_style(ls, st.plain) == if del is Some { st.deletion } else { st.plain });
                assert(side_marker_style(rs, st.plain) == if add is Some { st.addition } else { st.plain });
                assert(spans_view(spans@) =~= seq![SpanView { text: indicator@, style: st.indicator }]
                    + column_spec(del, old_lineno_of(del), lw as nat, content_width as nat, st.dim, st.deletion, st.plain)
                    + seq![SpanView { text: " │ "@, style: st.dim }]
                    + column_spec(add, new_lineno_of(add), lw as nat, content_width as nat, st.dim, st.addition, st.plain));
            }
            (spans, Some(meta))
        },
    }
}

fn old_lineno_of_exec<S>(line: &Option<SbsLine<S>>) -> (r: Option<u32>)
    ensures
        r == old_lineno_of(*line),
{
    match line {
        Some(l) => l.old_lineno,
        None => None,
    }
}

fn new_lineno_of_exec<S>(line: &Option<SbsLine<S>>) -> (r: Option<u32>)
    ensures
        r == new_lineno_of(*line),
{
    match line {
        Some(l) => l.new_lineno,
        None => None,
    }
}

/// Every character is printable ASCII.
pub open spec fn printable_ascii(t: Seq<char>) -> bool {
    forall|i: int| 0 <= i < t.len() ==> 0x20 <= (#[trigger] t[i] as u32) && (t[i] as u32) < 0x7F
}

proof fn lemma_decimal_printable(n: nat)
    ensures
        printable_ascii(decimal(n)),
    decreases n,
{
    if n >= 10 {
        lemma_decimal_printable(n / 10);
        let d = decimal(n);
        assert forall|i: int| 0 <= i < d.len() implies 0x20 <= (#[trigger] d[i] as u32) && (d[i] as u32)
            < 0x7F by {
            if i < d.len() - 1 {
                assert(d[i] == decimal(n / 10)[i]);
            }
        }
    }
}

proof fn lemma_field_printable(lineno: Option<u32>, lw: nat)
    ensures
        printable_ascii(lineno_field_spec(lineno, lw).push(' ')),
{
    match lineno {
        Some(n) => {
            lemma_decimal_printable(n as nat);
            let d = decimal(n as nat);
            let f = lineno_field_spec(lineno, lw).push(' ');
            assert forall|i: int| 0 <= i < f.len() implies 0x20 <= (#[trigger] f[i] as u32) && (f[i] as u32)
                < 0x7F by {
                if d.len() < lw && i < lw - d.len() {
                    assert(f[i] == ' ');
                } else if d.len() < lw && i < lw {
                    assert(f[i] == d[i - (lw - d.len())]);
                } else if i < d.len() && d.len() >= lw {
                    assert(f[i] == d[i]);
                }
            }
        },
        None => {
            let f = lineno_field_spec(lineno, lw).push(' ');
            assert forall|i: int| 0 <= i < f.len() implies 0x20 <= (#[trigger] f[i] as u32) && (f[i] as u32)
                < 0x7F by {
                assert(f[i] == ' ');
            }
        },
    }
}

proof fn lemma_blanks_printable(n: nat)
    ensures
        printable_ascii(blanks(n)),
{
    assert forall|i: int| 0 <= i < blanks(n).len() implies 0x20 <= (#[trigger] blanks(n)[i] as u32) && (
    blanks(n)[i] as u32) < 0x7F by {
        assert(blanks(n)[i] == ' ');
    }
}

/// Continuation prefixes keep the columns aligned in display width: where
/// the cursor indicator and both markers are one column wide, the divider
/// three, a string of printable ASCII as wide as it is long (which the
/// width tables give; see [`crate::text::str_width`]), and the line
/// numbers fit into `lw` digits, the blank left prefix is as wide as the
/// row's left prefix, `lw + 3` columns, and the blank right prefix as wide
/// as the row's right prefix, `lw + 5` columns.
pub proof fn law_blank_prefixes_align_in_width<S>(
    indicator: Seq<char>,
    indicator_style: S,
    dim: S,
    plain: S,
    left: (Option<u32>, Seq<char>, S),
    right: (Option<u32>, Seq<char>, S),
    lw: nat,
)
    requires
        unicode_str_width(indicator) == 1,
        unicode_str_width(left.1) == 1,
        unicode_str_width(right.1) == 1,
        unicode_str_width(" │ "@) == 3,
        forall|t: Seq<char>| #[trigger] printable_ascii(t) ==> unicode_str_width(t) == t.len(),
        left.0 matches Some(n) ==> decimal(n as nat).len() <= lw,
        right.0 matches Some(n) ==> decimal(n as nat).len() <= lw,
    ensures
        spans_width(left_prefix_spec(indicator, indicator_style, dim, left.0, left.1, left.2, lw)) == lw + 3,
        spans_width(seq![SpanView { text: blanks(lw + 3), style: plain }]) == lw + 3,
        spans_width(right_prefix_spec(dim, right.0, right.1, right.2, lw)) == lw + 5,
        spans_width(
            seq![
                SpanView { text: " │ "@, style: dim },
                SpanView { text: blanks(lw + 2), style: plain },
            ],
        ) == lw + 5,
{
    reveal_with_fuel(spans_width, 4);
    lemma_lineno_field_len(left.0, lw);
    lemma_lineno_field_len(right.0, lw);
    lemma_field_printable(left.0, lw);
    lemma_field_printable(right.0, lw);
    lemma_blanks_printable(lw + 3);
    lemma_blanks_printable(lw + 2);
    let lp = left_prefix_spec(indicator, indicator_style, dim, left.0, left.1, left.2, lw);
    assert(lp.drop_last().drop_last().drop_last() =~= Seq::<SpanView<S>>::empty());
    let rp = right_prefix_spec(dim, right.0, right.1, right.2, lw);
    assert(rp.drop_last().drop_last().drop_last() =~= Seq::<SpanView<S>>::empty());
    let bl = seq![SpanView { text: blanks(lw + 3), style: plain }];
    assert(bl.drop_last() =~= Seq::<SpanView<S>>::empty());
    let br = seq![
        SpanView { text: " │ "@, style: dim },
        SpanView { text: blanks(lw + 2), style: plain },
    ];
    assert(br.drop_last().drop_last() =~= Seq::<SpanView<S>>::empty());
}

/// In a changed side-by-side row drawn without wrapping, the left column
/// shows the deleted line's old number and the bar in the deletion style,
/// the right column, after the divider, the added line's new number and
/// the bar in the addition style, each followed by its cell; a missing
/// line leaves its column blank. The wrapping metadata's gutters carry the
/// same numbers and its contents are the lines' texts in the styles of
/// their sides.
pub proof fn law_changed_row_columns<S>(
    indicator: Seq<char>,
    hunk_exists: bool,
    del_line_idx: Option<usize>,
    add_line_idx: Option<usize>,
    del: Option<SbsLine<S>>,
    add: Option<SbsLine<S>>,
    content_width: nat,
    lw: nat,
    st: SbsStyles<S>,
)
    requires
        hunk_exists,
        !(del_line_idx == add_line_idx && (del matches Some(l) && l.origin == LineOrigin::Context)),
    ensures
        ({
            let (spans, meta) = sbs_row_spec(
                indicator,
                hunk_exists,
                false,
                del_line_idx,
                add_line_idx,
                del,
                add,
                content_width,
                lw,
                st,
            );
            let k: int = match del {
                Some(l) => 3 + l.cell@.len() as int,
                None => 2,
            };
            &&& spans[0] == SpanView { text: indicator, style: st.indicator }
            &&& spans[k] == SpanView { text: " │ "@, style: st.dim }
            &&& del matches Some(l) ==> {
                &&& spans[1] == SpanView { text: lineno_field_spec(l.old_lineno, lw).push(' '), style: st.dim }
                &&& spans[2] == SpanView { text: "▌"@, style: st.deletion }
                &&& spans.subrange(3, k) == spans_view(l.cell@)
            }
            &&& del is None ==> spans[1] == SpanView { text: blanks(lw + 2 + content_width), style: st.plain }
            &&& add matches Some(l) ==> {
                &&& spans[k + 1] == SpanView { text: lineno_field_spec(l.new_lineno, lw).push(' '), style: st.dim }
                &&& spans[k + 2] == SpanView { text: "▌"@, style: st.addition }
                &&& spans.subrange(k + 3, spans.len() as int) == spans_view(l.cell@)
            }
            &&& add is None ==> spans.len() == k + 2 && spans[k + 1] == SpanView {
                text: blanks(lw + 2 + content_width),
                style: st.plain,
            }
            &&& meta matches Some(m) && {
                &&& m.left_prefix[1].text == lineno_field_spec(
                    match del {
                        Some(l) => l.old_lineno,
                        None => None,
                    },
                    lw,
                ).push(' ')
                &&& m.right_prefix[1].text == lineno_field_spec(
                    match add {
                        Some(l) => l.new_lineno,
                        None => None,
                    },
                    lw,
                ).push(' ')
                &&& (del matches Some(l) ==> m.left_content == line_content_spec(l, st.deletion)
                    && m.left_pad_style == l.pad_style)
                &&& (add matches Some(l) ==> m.right_content == line_content_spec(l, st.addition)
                    && m.right_pad_style == l.pad_style)
            }
        }),
{
    let (spans, meta) = sbs_row_spec(indicator, hunk_exists, false, del_line_idx, add_line_idx, del, add, content_width, lw, st);
    let left = column_spec(del, old_lineno_of(del), lw, content_width, st.dim, st.deletion, st.plain);
    let right = column_spec(add, new_lineno_of(add), lw, content_width, st.dim, st.addition, st.plain);
    let head = seq![SpanView { text: indicator, style: st.indicator }];
    let div = seq![SpanView { text: " │ "@, style: st.dim }];
    assert(spans == head + left + div + right);
    let k: int = match del {
        Some(l) => 3 + l.cell@.len() as int,
        None => 2,
    };
    assert(left.len() == k - 1);
    assert(spans[k] == div[0]);
    match del {
        Some(l) => {
            assert(spans.subrange(3, k) =~= left.subrange(2, left.len() as int));
            assert(left.subrange(2, left.len() as int) =~= spans_view(l.cell@));
        },
        None => {},
    }
    match add {
        Some(l) => {
            assert(spans.subrange(k + 3, spans.len() as int) =~= right.subrange(2, right.len() as int));
            assert(right.subrange(2, right.len() as int) =~= spans_view(l.cell@));
        },
        None => {},
    }
}

/// An unchanged side-by-side row shows the line's old number on the left
/// and its new number on the right, with the same cell in both columns,
/// and its wrapping metadata holds the line's text in the context style
/// on both sides.
pub proof fn law_context_row_columns<S>(
    indicator: Seq<char>,
    idx: usize,
    line: SbsLine<S>,
    add: Option<SbsLine<S>>,
    content_width: nat,
    lw: nat,
    st: SbsStyles<S>,
)
    requires
        line.origin == LineOrigin::Context,
    ensures
        ({
            let (spans, meta) = sbs_row_spec(
                indicator,
                true,
                false,
                Some(idx),
                Some(idx),
                Some(line),
                add,
                content_width,
                lw,
                st,
            );
            let c = line.cell@.len() as int;
            &&& spans[1] == SpanView { text: lineno_field_spec(line.old_lineno, lw).push(' '), style: st.dim }
            &&& spans.subrange(3, 3 + c) == spans_view(line.cell@)
            &&& spans[3 + c] == SpanView { text: " │ "@, style: st.dim }
            &&& spans[4 + c] == SpanView { text: lineno_field_spec(line.new_lineno, lw).push(' '), style: st.dim }
            &&& spans.subrange(6 + c, spans.len() as int) == spans_view(line.cell@)
            &&& meta matches Some(m) && m.left_content == line_content_spec(line, st.context)
                && m.right_content == m.left_content
        }),
{
    let (spans, meta) = sbs_row_spec(indicator, true, false, Some(idx), Some(idx), Some(line), add, content_width, lw, st);
    let c = line.cell@.len() as int;
    let cv = spans_view(line.cell@);
    assert(spans.subrange(3, 3 + c) =~= cv);
    assert(spans.subrange(6 + c, spans.len() as int) =~= cv);
}

/// A line-number field holds the number's digits at its right end,
/// preceded by blanks up to `width` characters; a number wider than the
/// field is shown whole; no number is all blanks.
pub proof fn law_lineno_field_right_aligns(lineno: Option<u32>, width: nat)
    ensures
        ({
            let f = lineno_field_spec(lineno, width);
            match lineno {
                Some(n) => {
                    let d = decimal(n as nat);
                    &&& f.len() == if d.len() < width { width } else { d.len() }
                    &&& f.skip(f.len() - d.len()) == d
                    &&& forall|i: int| 0 <= i < f.len() - d.len() ==> #[trigger] f[i] == ' '
                },
                None => f.len() == width && forall|i: int| 0 <= i < width ==> #[trigger] f[i] == ' ',
            }
        }),
{
    if let Some(n) = lineno {
        let d = decimal(n as nat);
        let f = lineno_field_spec(lineno, width);
        assert(f.skip(f.len() - d.len()) =~= d);
    }
}

/// With relative numbering a line shows its distance from the cursor row,
/// otherwise its own number; a missing line shows none.
pub proof fn law_relative_numbers_are_distances(line: Option<u32>, relative: bool, row: usize, cursor: usize)
    ensures
        line is None ==> display_lineno_spec(line, relative, row, cursor) is None,
        line is Some && !relative ==> display_lineno_spec(line, relative, row, cursor) == line,
        line is Some && relative && row >= cursor ==> display_lineno_spec(line, relative, row, cursor) == Some(
            (row - cursor) as u32,
        ),
        line is Some && relative && row < cursor ==> display_lineno_spec(line, relative, row, cursor) == Some(
            (cursor - row) as u32,
        ),
{
}

/// A padded cell keeps its spans in front and, when narrower than the
/// column, gains one span of exactly the missing blanks in the pad style.
pub proof fn law_padding_fills_the_missing_columns<S>(spans: Seq<SpanView<S>>, width: nat, pad: S)
    ensures
        pad_spans_spec(spans, width, pad).take(spans.len() as int) == spans,
        spans_width(spans) >= width ==> pad_spans_spec(spans, width, pad) == spans,
        spans_width(spans) < width ==> pad_spans_spec(spans, width, pad).len() == spans.len() + 1
            && pad_spans_spec(spans, width, pad).last() == (SpanView {
            text: Seq::new((width - spans_width(spans)) as nat, |i: int| ' '),
            style: pad,
        }),
{
    assert(pad_spans_spec(spans, width, pad).take(spans.len() as int) =~= spans);
}

/// A wrapped side-by-side row takes as many visual rows as its taller
/// column, at least one; its first row starts with the row's own left
/// gutter and every other row with the blank one.
pub proof fn law_wrapped_row_count<S>(
    left_rows: Seq<Seq<SpanView<S>>>,
    right_rows: Seq<Seq<SpanView<S>>>,
    prefixes: (Seq<SpanView<S>>, Seq<SpanView<S>>),
    blank_prefixes: (Seq<SpanView<S>>, Seq<SpanView<S>>),
    width: nat,
    left_pad: S,
    right_pad: S,
)
    ensures
        ({
            let rows = sbs_wrapped_rows_spec(left_rows, right_rows, prefixes, blank_prefixes, width, left_pad, right_pad);
            &&& rows.len() >= 1
            &&& rows.len() >= left_rows.len() && rows.len() >= right_rows.len()
            &&& (rows.len() == left_rows.len() || rows.len() == right_rows.len() || rows.len() == 1)
            &&& rows[0].take(prefixes.0.len() as int) == prefixes.0
            &&& forall|k: int| 1 <= k < rows.len() ==> (#[trigger] rows[k]).take(blank_prefixes.0.len() as int)
                == blank_prefixes.0
        }),
{
    let rows = sbs_wrapped_rows_spec(left_rows, right_rows, prefixes, blank_prefixes, width, left_pad, right_pad);
    assert(rows[0].take(prefixes.0.len() as int) =~= prefixes.0);
    assert forall|k: int| 1 <= k < rows.len() implies (#[trigger] rows[k]).take(blank_prefixes.0.len() as int)
        == blank_prefixes.0 by {
        assert(rows[k].take(blank_prefixes.0.len() as int) =~= blank_prefixes.0);
    }
}

/// How a side-by-side row is drawn: nothing when its hunk is missing; in a
/// commit message, across the row when either line exists; an unchanged
/// line in both columns exactly when both columns point at the same line
/// and it is a context line; otherwise as a change.
pub proof fn law_row_kinds(
    hunk_exists: bool,
    is_commit_message: bool,
    del_line_idx: Option<usize>,
    add_line_idx: Option<usize>,
    del_origin: Option<LineOrigin>,
    add_exists: bool,
)
    ensures
        ({
            let k = sbs_row_kind_spec(hunk_exists, is_commit_message, del_line_idx, add_line_idx, del_origin, add_exists);
            &&& !hunk_exists ==> k == SbsRowKind::Missing
            &&& hunk_exists && is_commit_message ==> (k == SbsRowKind::CommitMessage <==> (add_exists
                || del_origin is Some)) && k != SbsRowKind::Context && k != SbsRowKind::Changed
            &&& hunk_exists && !is_commit_message ==> (k == SbsRowKind::Context <==> (del_line_idx == add_line_idx
                && del_origin == Some(LineOrigin::Context))) && k != SbsRowKind::Missing && k
                != SbsRowKind::CommitMessage
        }),
        column_pad_spec(LineOrigin::Context, true) == PadStyle::Context,
        column_pad_spec(LineOrigin::Context, false) == PadStyle::Context,
        column_pad_spec(LineOrigin::Addition, true) == PadStyle::AdditionSyntax,
        column_pad_spec(LineOrigin::Addition, false) == PadStyle::Addition,
        column_pad_spec(LineOrigin::Deletion, true) == PadStyle::DeletionSyntax,
        column_pad_spec(LineOrigin::Deletion, false) == PadStyle::Deletion,
{
}

} // verus!
