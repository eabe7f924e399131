//! Rows of the unified diff view and the simple annotation rows shared by
//! both views: headers, banners, expanders, hunk headers and spacing.

use vstd::prelude::*;
use crate::side_by_side::{blank_text, content_spans_spec, diff_content_spans, LineOrigin};
use crate::text::{copy_spans, spans_view, SpanView, StyledSpan};
use crate::viewport::{issue_comments_header, issue_comments_header_spec, AnnotatedLine};
use crate::word_wrap::blanks;

verus! {

/// The styles of a unified diff row.
#[derive(Clone, Copy, Debug, PartialEq, Eq, Structural)]
pub struct UnifiedStyles<S> {
    pub indicator: S,
    pub dim: S,
    pub addition: S,
    pub deletion: S,
    pub context: S,
}

/// The style of the end-of-line span that fills the rest of an added or
/// deleted row: `base`, with its background replaced by the syntax
/// background of the row's origin when the row is syntax highlighted.
#[derive(Clone, Copy, Debug, PartialEq, Eq, Structural)]
pub struct EolStyle<S> {
    pub base: S,
    pub syntax_background: bool,
}

/// The style of a diff line of this origin.
pub open spec fn origin_style<S>(origin: LineOrigin, st: UnifiedStyles<S>) -> S {
    match origin {
        LineOrigin::Addition => st.addition,
        LineOrigin::Deletion => st.deletion,
        LineOrigin::Context => st.context,
    }
}

/// The spans of a unified diff row: the cursor indicator, the line-number
/// field (blanks one wider than the numbers for a commit message line),
/// the origin marker and a blank, then the line's content.
pub open spec fn unified_row_spec<S>(
    indicator: Seq<char>,
    origin: LineOrigin,
    commit_message: bool,
    lineno: Seq<char>,
    lw: nat,
    marker: Seq<char>,
    highlighted: Option<&Vec<(S, String)>>,
    content: Seq<char>,
    st: UnifiedStyles<S>,
) -> Seq<SpanView<S>> {
    seq![
        SpanView { text: indicator, style: st.indicator },
        SpanView { text: if commit_message { blanks(lw + 1) } else { lineno }, style: st.dim },
        SpanView { text: marker.push(' '), style: origin_style(origin, st) },
    ] + content_spans_spec(highlighted, content, origin_style(origin, st))
}

/// The end-of-line span of a unified row: only added and deleted rows have
/// one; it takes the style of the row's last span.
pub open spec fn unified_eol_spec<S>(
    origin: LineOrigin,
    highlighted: bool,
    spans: Seq<SpanView<S>>,
) -> Option<EolStyle<S>> {
    match origin {
        LineOrigin::Context => None,
        _ => Some(EolStyle { base: spans.last().style, syntax_background: highlighted }),
    }
}

fn origin_style_of<S: Copy>(origin: LineOrigin, st: &UnifiedStyles<S>) -> (r: S)
    ensures
        r == origin_style(origin, *st),
{
    match origin {
        LineOrigin::Addition => st.addition,
        LineOrigin::Deletion => st.deletion,
        LineOrigin::Context => st.context,
    }
}

/// Lays out a row of the unified diff, before search highlighting: its
/// spans, and the style of its end-of-line span when it has one.
pub fn unified_row_spans<S: Copy>(
    indicator: &str,
    origin: LineOrigin,
    commit_message: bool,
    lineno: &str,
    lw: usize,
    marker: &str,
    highlighted: Option<&Vec<(S, String)>>,
    content: &str,
    st: &UnifiedStyles<S>,
) -> (r: (Vec<StyledSpan<S>>, Option<EolStyle<S>>))
    requires
        lw + 1 <= usize::MAX,
    ensures
        spans_view(r.0@) == unified_row_spec(
            indicator@,
            origin,
            commit_message,
            lineno@,
            lw as nat,
            marker@,
            highlighted,
            content@,
            *st,
        ),
        r.1 == unified_eol_spec(origin, highlighted is Some, spans_view(r.0@)),
{
    let style = origin_style_of(origin, st);
    let line_num = if commit_message {
        blank_text(lw + 1)
    } else {
        String::from_str(lineno)
    };
    let mut marked = String::from_str(marker);
    marked.append(" ");
    proof {
        reveal_strlit(" ");
        assert(marked@ =~= marker@.push(' '));
        assert(line_num@ == if commit_message { blanks((lw + 1) as nat) } else { lineno@ });
    }
    let mut spans: Vec<StyledSpan<S>> = Vec::new();
    spans.push(StyledSpan { content: String::from_str(indicator), style: st.indicator });
    spans.push(StyledSpan { content: line_num, style: st.dim });
    spans.push(StyledSpan { content: marked, style: style });
    let ghost gutter = spans_view(spans@);
    let mut body = diff_content_spans(highlighted, content, style);
    let ghost bv = spans_view(body@);
    spans.append(&mut body);
    proof {
        assert(gutter =~= seq![
            SpanView { text: indicator@, style: st.indicator },
            SpanView { text: if commit_message { blanks((lw + 1) as nat) } else { lineno@ }, style: st.dim },
            SpanView { text: marker@.push(' '), style: style },
        ]);
        assert(spans_view(spans@) =~= gutter + bv);
    }
    let eol = match origin {
        LineOrigin::Context => None,
        _ => {
            let last = spans.len() - 1;
            let highlighted_row = match highlighted {
                Some(_) => true,
                None => false,
            };
            proof {
                assert(spans_view(spans@).last() == spans@[last as int]@);
            }
            Some(EolStyle { base: spans[last].style, syntax_background: highlighted_row })
        },
    };
    (spans, eol)
}

/// What the simple rows show, looked up beforehand for the row being
/// drawn: the cursor indicator (plain and spaced), the header texts, the
/// number of the pull request, the header of the row's file (`None` when
/// the file does not exist), the banner and expander texts, the number
/// field and text of an expanded line (`None` when it does not exist), the
/// hunk header text and style (`None` when the hunk does not exist), the
/// laid-out diff line (`None` when it does not exist), the label of a
/// binary or empty file, and the hint naming the next file, which is only
/// shown on a spacing row of the single-file unified view.
pub struct RowFacts<S> {
    pub indicator: String,
    pub indicator_spaced: String,
    pub review_header_prefix: String,
    pub header_rule: String,
    pub pr_number: Option<u64>,
    pub file_header: Option<String>,
    pub banner: String,
    pub expander_body: String,
    pub hidden_body: String,
    pub expanded: Option<(String, String)>,
    pub hunk_header: Option<(String, S)>,
    pub diff_row: Option<Vec<StyledSpan<S>>>,
    pub binary_label: Option<String>,
    pub next_file_hint: Option<String>,
}

/// The styles of the simple rows.
#[derive(Clone, Copy, Debug, PartialEq, Eq, Structural)]
pub struct RowStyles<S> {
    pub indicator: S,
    pub file_header: S,
    pub secondary: S,
    pub dim: S,
    pub expanded: S,
}

pub open spec fn sv<S>(text: Seq<char>, style: S) -> SpanView<S> {
    SpanView { text, style }
}

/// The spans of a simple annotation row: headers and file headers with
/// the spaced indicator and a rule, the reviewed banner, expanders and
/// hidden-line notes, expanded context lines, hunk headers, diff lines,
/// labels of binary or empty files, and spacing rows with the next-file
/// hint; nothing for a row whose source does not exist or that is drawn
/// elsewhere.
pub open spec fn simple_row_spec<S>(a: AnnotatedLine, f: RowFacts<S>, st: RowStyles<S>) -> Seq<SpanView<S>> {
    let ind = sv(f.indicator@, st.indicator);
    let spaced = sv(f.indicator_spaced@, st.indicator);
    let rule = sv(f.header_rule@, st.file_header);
    match a {
        AnnotatedLine::ReviewCommentsHeader => seq![spaced, sv(f.review_header_prefix@, st.file_header), rule],
        AnnotatedLine::IssueCommentsHeader => seq![
            spaced,
            sv(issue_comments_header_spec(f.pr_number), st.file_header),
            rule,
        ],
        AnnotatedLine::FileHeader { .. } => match f.file_header {
            Some(t) => seq![spaced, sv(t@, st.file_header), rule],
            None => Seq::empty(),
        },
        AnnotatedLine::ReviewedBanner { .. } => seq![ind, sv(f.banner@, st.secondary)],
        AnnotatedLine::Expander { .. } => seq![spaced, sv(f.expander_body@, st.dim)],
        AnnotatedLine::HiddenLines { .. } => seq![spaced, sv(f.hidden_body@, st.dim)],
        AnnotatedLine::ExpandedContext { .. } => match f.expanded {
            Some((num, content)) => seq![
                ind,
                sv(num@, st.expanded),
                sv("  "@, st.expanded),
                sv(content@, st.expanded),
            ],
            None => Seq::empty(),
        },
        AnnotatedLine::HunkHeader { .. } => match f.hunk_header {
            Some((t, style)) => seq![spaced, sv(t@, style)],
            None => Seq::empty(),
        },
        AnnotatedLine::DiffLine { .. } => match f.diff_row {
            Some(spans) => spans_view(spans@),
            None => Seq::empty(),
        },
        AnnotatedLine::BinaryOrEmpty { .. } => match f.binary_label {
            Some(t) => seq![spaced, sv(t@, st.dim)],
            None => Seq::empty(),
        },
        AnnotatedLine::Spacing => match f.next_file_hint {
            Some(t) => seq![ind, sv(t@, st.secondary)],
            None => seq![ind],
        },
        _ => Seq::empty(),
    }
}

fn span_of<S: Copy>(text: &String, style: S) -> (r: StyledSpan<S>)
    ensures
        r@ == sv(text@, style),
{
    StyledSpan { content: text.clone(), style }
}

/// Lays out a simple annotation row from what was looked up for it.
pub fn simple_row_spans<S: Copy>(a: &AnnotatedLine, facts: &RowFacts<S>, st: &RowStyles<S>) -> (r: Vec<
    StyledSpan<S>,
>)
    ensures
        spans_view(r@) == simple_row_spec(*a, *facts, *st),
{
    let mut out: Vec<StyledSpan<S>> = Vec::new();
    match a {
        AnnotatedLine::ReviewCommentsHeader => {
            out.push(span_of(&facts.indicator_spaced, st.indicator));
            out.push(span_of(&facts.review_header_prefix, st.file_header));
            out.push(span_of(&facts.header_rule, st.file_header));
        },
        AnnotatedLine::IssueCommentsHeader => {
            out.push(span_of(&facts.indicator_spaced, st.indicator));
            out.push(StyledSpan { content: issue_comments_header(facts.pr_number), style: st.file_header });
            out.push(span_of(&facts.header_rule, st.file_header));
        },
        AnnotatedLine::FileHeader { .. } => {
            match &facts.file_header {
                Some(t) => {
                    out.push(span_of(&facts.indicator_spaced, st.indicator));
                    out.push(span_of(t, st.file_header));
                    out.push(span_of(&facts.header_rule, st.file_header));
                },
                None => {},
            }
        },
        AnnotatedLine::ReviewedBanner { .. } => {
            out.push(span_of(&facts.indicator, st.indicator));
            out.push(span_of(&facts.banner, st.secondary));
        },
        AnnotatedLine::Expander { .. } => {
            out.push(span_of(&facts.indicator_spaced, st.indicator));
            out.push(span_of(&facts.expander_body, st.dim));
        },
        AnnotatedLine::HiddenLines { .. } => {
            out.push(span_of(&facts.indicator_spaced, st.indicator));
            out.push(span_of(&facts.hidden_body, st.dim));
        },
        AnnotatedLine::ExpandedContext { .. } => {
            match &facts.expanded {
                Some((num, content)) => {
                    out.push(span_of(&facts.indicator, st.indicator));
                    out.push(span_of(num, st.expanded));
                    out.push(StyledSpan { content: String::from_str("  "), style: st.expanded });
                    out.push(span_of(content, st.expanded));
                },
                None => {},
            }
        },
        AnnotatedLine::HunkHeader { .. } => {
            match &facts.hunk_header {
                Some((t, style)) => {
                    out.push(span_of(&facts.indicator_spaced, st.indicator));
                    out.push(span_of(t, *style));
                },
                None => {},
            }
        },
        AnnotatedLine::DiffLine { .. } => {
            match &facts.diff_row {
                Some(spans) => {
                    out = copy_spans(spans);
                },
                None => {},
            }
        },
        AnnotatedLine::BinaryOrEmpty { .. } => {
            match &facts.binary_label {
                Some(t) => {
                    out.push(span_of(&facts.indicator_spaced, st.indicator));
                    out.push(span_of(t, st.dim));
                },
                None => {},
            }
        },
        AnnotatedLine::Spacing => {
            out.push(span_of(&facts.indicator, st.indicator));
            match &facts.next_file_hint {
                Some(t) => {
                    out.push(span_of(t, st.secondary));
                },
                None => {},
            }
        },
        _ => {},
    }
    proof {
        assert(spans_view(out@) =~= simple_row_spec(*a, *facts, *st));
    }
    out
}

/// Whether a simple row has a source to show: headers, banners,
/// expanders, hidden-line notes and spacing always do; file headers,
/// expanded lines, hunk headers, diff lines and binary-file labels when
/// they were found; comment rows and side-by-side rows are drawn
/// elsewhere.
pub open spec fn has_simple_source<S>(a: AnnotatedLine, f: RowFacts<S>) -> bool {
    match a {
        AnnotatedLine::ReviewCommentsHeader | AnnotatedLine::IssueCommentsHeader
        | AnnotatedLine::ReviewedBanner { .. } | AnnotatedLine::Expander { .. }
        | AnnotatedLine::HiddenLines { .. } | AnnotatedLine::Spacing => true,
        AnnotatedLine::FileHeader { .. } => f.file_header is Some,
        AnnotatedLine::ExpandedContext { .. } => f.expanded is Some,
        AnnotatedLine::HunkHeader { .. } => f.hunk_header is Some,
        AnnotatedLine::DiffLine { .. } => f.diff_row is Some,
        AnnotatedLine::BinaryOrEmpty { .. } => f.binary_label is Some,
        _ => false,
    }
}

/// The shape of a simple row. A row without a source is empty. Every other
/// row but a diff line starts with the cursor indicator in the indicator
/// style (the spaced one on headers, expanders, hidden-line notes, hunk
/// headers and binary-file labels) and then shows its own text: a header's
/// text and the rule in the file-header style, the banner or the next-file
/// hint in the secondary style, the expander, hidden-line or binary-file
/// text in the dim style, an expanded line's number, two blanks and text in
/// the expanded style, the hunk header in its own style; a diff line shows
/// its laid-out spans unchanged.
pub proof fn law_simple_row_shapes<S>(a: AnnotatedLine, f: RowFacts<S>, st: RowStyles<S>)
    ensures
        ({
            let r = simple_row_spec(a, f, st);
            let spaced = SpanView { text: f.indicator_spaced@, style: st.indicator };
            let plain = SpanView { text: f.indicator@, style: st.indicator };
            &&& !has_simple_source(a, f) ==> r.len() == 0
            &&& a is BinaryOrEmpty && f.binary_label is Some ==> r == seq![
                spaced,
                SpanView { text: f.binary_label->0@, style: st.dim },
            ]
            &&& a is FileHeader && f.file_header is Some ==> r == seq![
                spaced,
                SpanView { text: f.file_header->0@, style: st.file_header },
                SpanView { text: f.header_rule@, style: st.file_header },
            ]
            &&& a is ReviewCommentsHeader ==> r == seq![
                spaced,
                SpanView { text: f.review_header_prefix@, style: st.file_header },
                SpanView { text: f.header_rule@, style: st.file_header },
            ]
            &&& a is IssueCommentsHeader ==> r.len() == 3 && r[0] == spaced && r[1].text
                == issue_comments_header_spec(f.pr_number) && r[2] == SpanView {
                text: f.header_rule@,
                style: st.file_header,
            }
            &&& a is ReviewedBanner ==> r == seq![plain, SpanView { text: f.banner@, style: st.secondary }]
            &&& a is Expander ==> r == seq![spaced, SpanView { text: f.expander_body@, style: st.dim }]
            &&& a is HiddenLines ==> r == seq![spaced, SpanView { text: f.hidden_body@, style: st.dim }]
            &&& a is ExpandedContext && f.expanded is Some ==> r == seq![
                plain,
                SpanView { text: (f.expanded->0).0@, style: st.expanded },
                SpanView { text: "  "@, style: st.expanded },
                SpanView { text: (f.expanded->0).1@, style: st.expanded },
            ]
            &&& a is HunkHeader && f.hunk_header is Some ==> r == seq![
                spaced,
                SpanView { text: (f.hunk_header->0).0@, style: (f.hunk_header->0).1 },
            ]
            &&& a is DiffLine && f.diff_row is Some ==> r == spans_view(f.diff_row->0@)
            &&& a is Spacing ==> r[0] == plain && r.len() == (if f.next_file_hint is Some { 2int } else { 1 })
                && (f.next_file_hint is Some ==> r[1] == SpanView {
                text: f.next_file_hint->0@,
                style: st.secondary,
            })
        }),
{
}

/// Only added and deleted lines get an end-of-line span, styled as the
/// row's last span; and a unified row always begins with the cursor
/// indicator, then the line-number field (blank for a commit message),
/// then the origin marker and a blank in the style of the line's origin,
/// followed by the line's content.
pub proof fn law_unified_row_shape<S>(
    indicator: Seq<char>,
    origin: LineOrigin,
    commit_message: bool,
    lineno: Seq<char>,
    lw: nat,
    marker: Seq<char>,
    highlighted: Option<&Vec<(S, String)>>,
    content: Seq<char>,
    st: UnifiedStyles<S>,
)
    ensures
        ({
            let r = unified_row_spec(indicator, origin, commit_message, lineno, lw, marker, highlighted, content, st);
            let line_style = match origin {
                LineOrigin::Addition => st.addition,
                LineOrigin::Deletion => st.deletion,
                LineOrigin::Context => st.context,
            };
            &&& r[0] == SpanView { text: indicator, style: st.indicator }
            &&& commit_message ==> r[1] == SpanView { text: blanks(lw + 1), style: st.dim }
            &&& !commit_message ==> r[1] == SpanView { text: lineno, style: st.dim }
            &&& r[2] == SpanView { text: marker.push(' '), style: line_style }
            &&& r.skip(3) == content_spans_spec(highlighted, content, line_style)
            &&& (unified_eol_spec(origin, highlighted is Some, r) is Some <==> origin != LineOrigin::Context)
            &&& unified_eol_spec(origin, highlighted is Some, r) matches Some(e) ==> e.base == r.last().style
                && e.syntax_background == highlighted is Some
        }),
{
    let r = unified_row_spec(indicator, origin, commit_message, lineno, lw, marker, highlighted, content, st);
    assert(r.skip(3) =~= content_spans_spec(highlighted, content, origin_style(origin, st)));
}

} // verus!
