//! Row bookkeeping of the viewport-bounded diff document.
//!
//! The document is a sequence of annotation rows. While a comment is being
//! written, its editor is shown inline: its rows are inserted in front of
//! annotation row `start`, in place of the `replaced` annotation rows that
//! held the comment being edited. Rendering resolves only the rows that
//! intersect the viewport, so it needs to map virtual rows (what is shown)
//! to annotation rows and back.

use crate::pr_details::Area;
use crate::text::{decimal, push_decimal};
use vstd::prelude::*;

verus! {

/// The inline comment editor: where it stands in the document, how many
/// annotation rows it hides, its rendered rows, and the cursor position
/// within them.
pub struct CommentInput<L> {
    pub start: usize,
    pub replaced: usize,
    pub lines: Vec<L>,
    pub cursor_line_offset: usize,
    pub cursor_column: u16,
}

impl<L> CommentInput<L> {
    /// The first virtual row after the editor.
    pub fn end(&self) -> (r: usize)
        requires
            self.start + self.lines@.len() <= usize::MAX,
        ensures
            r == self.start + self.lines@.len(),
    {
        self.start + self.lines.len()
    }

    /// How many virtual rows the document has when it holds `annotations`
    /// annotation rows.
    pub fn total_rows(&self, annotations: usize) -> (r: usize)
        requires
            annotations + self.lines@.len() <= usize::MAX,
        ensures
            r == annotations + self.lines@.len() - if self.replaced < annotations {
                self.replaced as int
            } else {
                annotations as int
            },
    {
        let hidden = if self.replaced < annotations {
            self.replaced
        } else {
            annotations
        };
        annotations + self.lines.len() - hidden
    }
}

/// What a virtual row of the document shows.
#[derive(Clone, Copy, Debug, PartialEq, Eq, Structural)]
pub enum DocumentRow {
    /// The annotation row with this index.
    Annotation(usize),
    /// This row of the comment editor.
    CommentInput(usize),
}

/// What virtual row `row` shows, for an editor at `start` with `len` rows
/// hiding `replaced` annotation rows.
pub open spec fn document_row_spec(start: nat, len: nat, replaced: nat, row: nat) -> DocumentRow {
    if row < start {
        DocumentRow::Annotation(row as usize)
    } else if row < start + len {
        DocumentRow::CommentInput((row - start) as usize)
    } else {
        DocumentRow::Annotation((row - len + replaced) as usize)
    }
}

/// The virtual row at which annotation row `idx` is shown.
pub open spec fn virtual_row_spec(start: nat, len: nat, replaced: nat, idx: nat) -> nat {
    if idx >= start + replaced {
        (idx + len - replaced) as nat
    } else {
        idx
    }
}

/// What virtual row `row` of the document shows.
pub fn document_row<L>(input: Option<&CommentInput<L>>, row: usize) -> (r: Option<DocumentRow>)
    requires
        input matches Some(inp) ==> inp.start + inp.lines@.len() <= usize::MAX,
        input matches Some(inp) ==> (row >= inp.start + inp.lines@.len() ==> row - inp.lines@.len()
            + inp.replaced <= usize::MAX),
    ensures
        r == Some(
            match input {
                None => DocumentRow::Annotation(row),
                Some(inp) => document_row_spec(
                    inp.start as nat,
                    inp.lines@.len(),
                    inp.replaced as nat,
                    row as nat,
                ),
            },
        ),
{
    match input {
        None => Some(DocumentRow::Annotation(row)),
        Some(input) => {
            if row < input.start {
                Some(DocumentRow::Annotation(row))
            } else if row < input.end() {
                Some(DocumentRow::CommentInput(row - input.start))
            } else {
                Some(DocumentRow::Annotation(row - input.lines.len() + input.replaced))
            }
        },
    }
}

/// The virtual row at which annotation row `block` starts.
pub fn virtual_row_of<L>(input: Option<&CommentInput<L>>, block: usize) -> (r: usize)
    requires
        input matches Some(inp) ==> inp.start + inp.replaced <= usize::MAX,
        input matches Some(inp) ==> block + inp.lines@.len() <= usize::MAX,
    ensures
        r == match input {
            None => block as nat,
            Some(inp) => virtual_row_spec(
                inp.start as nat,
                inp.lines@.len(),
                inp.replaced as nat,
                block as nat,
            ),
        },
{
    match input {
        Some(input) => {
            if block >= input.start + input.replaced {
                block + input.lines.len() - input.replaced
            } else {
                block
            }
        },
        None => block,
    }
}

/// Showing an annotation row and asking what its virtual row shows gives
/// the annotation back, for every row the editor does not hide; and every
/// virtual row before the end of the document shows either an editor row
/// or an annotation row that exists and is not hidden.
pub proof fn law_document_rows_round_trip(
    start: nat,
    len: nat,
    replaced: nat,
    annotations: nat,
    idx: nat,
    row: nat,
)
    requires
        start + replaced <= annotations,
        annotations + len <= usize::MAX,
        idx < annotations,
    ensures
        (idx < start || idx >= start + replaced) ==> document_row_spec(
            start,
            len,
            replaced,
            virtual_row_spec(start, len, replaced, idx),
        ) == DocumentRow::Annotation(idx as usize),
        row < annotations + len - replaced ==> match document_row_spec(start, len, replaced, row) {
            DocumentRow::CommentInput(k) => k < len,
            DocumentRow::Annotation(a) => a < annotations && (a < start || a >= start + replaced),
        },
{
}

/// The rows of the document keep their order: between two virtual rows
/// of the document, the later one shows a later annotation row, or a later
/// editor row; the editor's rows are its lines in order, starting at
/// `start`; and every annotation row that the editor does not hide is
/// shown at a virtual row of the document.
pub proof fn law_document_rows_in_order(
    start: nat,
    len: nat,
    replaced: nat,
    annotations: nat,
    row1: nat,
    row2: nat,
    idx: nat,
)
    requires
        start + replaced <= annotations,
        annotations + len <= usize::MAX,
    ensures
        row1 < row2 < annotations + len - replaced ==> match (
            document_row_spec(start, len, replaced, row1),
            document_row_spec(start, len, replaced, row2),
        ) {
            (DocumentRow::Annotation(a1), DocumentRow::Annotation(a2)) => a1 < a2,
            (DocumentRow::CommentInput(k1), DocumentRow::CommentInput(k2)) => k1 < k2,
            _ => true,
        },
        start <= row1 < start + len ==> document_row_spec(start, len, replaced, row1)
            == DocumentRow::CommentInput((row1 - start) as usize),
        (idx < start || start + replaced <= idx < annotations) ==> virtual_row_spec(start, len, replaced, idx)
            < annotations + len - replaced,
{
}

/// Which side of a diff a line comment is attached to.
#[derive(Clone, Copy, Debug, PartialEq, Eq, Structural)]
pub enum LineSide {
    Old,
    New,
}

/// The gap of unchanged lines in front of hunk `hunk_idx` of file `file_idx`
/// (or after its last hunk, when `hunk_idx` is the number of hunks).
#[derive(Clone, Copy, Debug, PartialEq, Eq, Structural)]
pub struct GapId {
    pub file_idx: usize,
    pub hunk_idx: usize,
}

/// An inclusive range of line numbers.
#[derive(Clone, Copy, Debug, PartialEq, Eq, Structural)]
pub struct LineRange {
    pub start: u32,
    pub end: u32,
}

/// What one annotation row of the diff document stands for. Comment-like
/// rows (PR info, issue and review comments, review summaries, file and
/// line comments, remote threads) form blocks: consecutive rows that stand
/// for the same comment are rendered together.
#[derive(Clone, Copy, Debug, PartialEq, Eq, Structural)]
pub enum AnnotatedLine {
    PrInfoLine,
    IssueCommentsHeader,
    IssueComment { comment_idx: usize },
    ReviewCommentsHeader,
    ReviewComment { comment_idx: usize },
    RemoteReviewSummaryLine { summary_idx: usize },
    FileHeader { file_idx: usize },
    ReviewedBanner { file_idx: usize },
    FileComment { file_idx: usize, comment_idx: usize },
    LineComment { file_idx: usize, line: u32, side: LineSide, comment_idx: usize },
    RemoteThreadLine { thread_idx: usize },
    Expander { gap_id: GapId },
    HiddenLines { count: usize },
    ExpandedContext { gap_id: GapId, line_idx: usize },
    HunkHeader { file_idx: usize, hunk_idx: usize },
    DiffLine { file_idx: usize, hunk_idx: usize, line_idx: usize },
    SideBySideLine {
        file_idx: usize,
        hunk_idx: usize,
        del_line_idx: Option<usize>,
        add_line_idx: Option<usize>,
    },
    BinaryOrEmpty { file_idx: usize },
    Spacing,
}

/// Whether two annotation rows belong to the same comment block.
pub open spec fn same_block_spec(a: AnnotatedLine, b: AnnotatedLine) -> bool {
    match (a, b) {
        (AnnotatedLine::PrInfoLine, AnnotatedLine::PrInfoLine) => true,
        (AnnotatedLine::IssueComment { comment_idx: x }, AnnotatedLine::IssueComment { comment_idx: y }) => x == y,
        (AnnotatedLine::ReviewComment { comment_idx: x }, AnnotatedLine::ReviewComment { comment_idx: y }) => x == y,
        (
            AnnotatedLine::RemoteReviewSummaryLine { summary_idx: x },
            AnnotatedLine::RemoteReviewSummaryLine { summary_idx: y },
        ) => x == y,
        (
            AnnotatedLine::FileComment { file_idx: af, comment_idx: ac },
            AnnotatedLine::FileComment { file_idx: bf, comment_idx: bc },
        ) => af == bf && ac == bc,
        (
            AnnotatedLine::LineComment { file_idx: af, line: al, side: as_, comment_idx: ac },
            AnnotatedLine::LineComment { file_idx: bf, line: bl, side: bs, comment_idx: bc },
        ) => af == bf && al == bl && as_ == bs && ac == bc,
        (
            AnnotatedLine::RemoteThreadLine { thread_idx: x },
            AnnotatedLine::RemoteThreadLine { thread_idx: y },
        ) => x == y,
        _ => false,
    }
}

/// Whether two annotation rows belong to the same comment block.
pub fn same_block(a: &AnnotatedLine, b: &AnnotatedLine) -> (r: bool)
    ensures
        r == same_block_spec(*a, *b),
{
    match (a, b) {
        (AnnotatedLine::PrInfoLine, AnnotatedLine::PrInfoLine) => true,
        (AnnotatedLine::IssueComment { comment_idx: x }, AnnotatedLine::IssueComment { comment_idx: y }) => *x == *y,
        (AnnotatedLine::ReviewComment { comment_idx: x }, AnnotatedLine::ReviewComment { comment_idx: y }) => *x == *y,
        (
            AnnotatedLine::RemoteReviewSummaryLine { summary_idx: x },
            AnnotatedLine::RemoteReviewSummaryLine { summary_idx: y },
        ) => *x == *y,
        (
            AnnotatedLine::FileComment { file_idx: af, comment_idx: ac },
            AnnotatedLine::FileComment { file_idx: bf, comment_idx: bc },
        ) => *af == *bf && *ac == *bc,
        (
            AnnotatedLine::LineComment { file_idx: af, line: al, side: as_, comment_idx: ac },
            AnnotatedLine::LineComment { file_idx: bf, line: bl, side: bs, comment_idx: bc },
        ) => *af == *bf && *al == *bl && *as_ == *bs && *ac == *bc,
        (
            AnnotatedLine::RemoteThreadLine { thread_idx: x },
            AnnotatedLine::RemoteThreadLine { thread_idx: y },
        ) => *x == *y,
        _ => false,
    }
}

/// Whether a row stands for a comment-like block.
pub open spec fn is_block_row(a: AnnotatedLine) -> bool {
    same_block_spec(a, a)
}

/// Belonging to the same block is an equivalence on comment-like rows:
/// symmetric and transitive, and reflexive exactly on comment-like rows.
pub proof fn law_same_block_is_equivalence(a: AnnotatedLine, b: AnnotatedLine, c: AnnotatedLine)
    ensures
        same_block_spec(a, b) == same_block_spec(b, a),
        same_block_spec(a, b) && same_block_spec(b, c) ==> same_block_spec(a, c),
        same_block_spec(a, b) ==> is_block_row(a) && is_block_row(b),
        is_block_row(a) <==> (a is PrInfoLine || a is IssueComment || a is ReviewComment
            || a is RemoteReviewSummaryLine || a is FileComment || a is LineComment
            || a is RemoteThreadLine),
{
}

/// The first row of the block that row `idx` belongs to: the rows from it
/// up to `idx` all belong to that block, and the row before it does not.
pub open spec fn is_block_start(annotations: Seq<AnnotatedLine>, idx: int, start: int) -> bool {
    &&& 0 <= start <= idx < annotations.len()
    &&& forall|j: int| start <= j < idx ==> same_block_spec(#[trigger] annotations[j], annotations[idx])
    &&& (start == 0 || !same_block_spec(annotations[start - 1], annotations[idx]))
}

/// Walking back from `start` while the row before still belongs to the
/// block of row `idx`.
pub open spec fn block_start_from(annotations: Seq<AnnotatedLine>, idx: int, start: int) -> int
    decreases start,
{
    if start > 0 && start - 1 < annotations.len() && same_block_spec(annotations[start - 1], annotations[idx]) {
        block_start_from(annotations, idx, start - 1)
    } else {
        start
    }
}

pub open spec fn block_start_spec(annotations: Seq<AnnotatedLine>, idx: int) -> int {
    if idx >= annotations.len() {
        idx
    } else {
        block_start_from(annotations, idx, idx)
    }
}

/// The first row of the block that row `idx` belongs to; a row that is not
/// part of a block, or an index past the end, is its own start.
pub fn block_start(annotations: &Vec<AnnotatedLine>, idx: usize) -> (r: usize)
    ensures
        r == block_start_spec(annotations@, idx as int),
        idx >= annotations@.len() ==> r == idx,
        idx < annotations@.len() ==> is_block_start(annotations@, idx as int, r as int),
{
    if idx >= annotations.len() {
        return idx;
    }
    let annotation = &annotations[idx];
    let mut start = idx;
    while start > 0 && same_block(&annotations[start - 1], annotation)
        invariant
            start <= idx < annotations@.len(),
            *annotation == annotations@[idx as int],
            forall|j: int| start <= j < idx ==> same_block_spec(#[trigger] annotations@[j], annotations@[idx as int]),
            block_start_from(annotations@, idx as int, start as int) == block_start_from(annotations@, idx as int, idx as int),
        decreases start,
    {
        start = start - 1;
    }
    start
}

/// Whether a row stands for a comment: the PR information, a conversation
/// or review comment, a review summary, a file or line comment, or a
/// remote thread.
pub open spec fn is_comment_row(a: AnnotatedLine) -> bool {
    a is PrInfoLine || a is IssueComment || a is ReviewComment || a is RemoteReviewSummaryLine
        || a is FileComment || a is LineComment || a is RemoteThreadLine
}

/// Two rows belong to the same comment block exactly when they stand for
/// the same comment: both are comment rows and they are equal. In
/// particular the rows of two different remote threads, or two different
/// comments on the same line, never share a block.
pub proof fn law_same_block_means_same_comment(a: AnnotatedLine, b: AnnotatedLine)
    ensures
        same_block_spec(a, b) <==> (is_comment_row(a) && a == b),
{
}

proof fn lemma_block_start_from(annotations: Seq<AnnotatedLine>, idx: int, start: int)
    requires
        0 <= start <= idx < annotations.len(),
        forall|j: int| start <= j < idx ==> same_block_spec(#[trigger] annotations[j], annotations[idx]),
    ensures
        is_block_start(annotations, idx, block_start_from(annotations, idx, start)),
    decreases start,
{
    if start > 0 && same_block_spec(annotations[start - 1], annotations[idx]) {
        lemma_block_start_from(annotations, idx, start - 1);
    }
}

/// A block starts at a row `s` and reaches row `idx` exactly when every row
/// from `s` to `idx` stands for the same comment as row `idx` and the row
/// before `s` does not; so a comment row whose predecessor stands for
/// another comment (another thread, another comment on the same line)
/// starts its own block and is drawn as row 0 of it.
pub proof fn law_blocks_are_runs_of_one_comment(annotations: Seq<AnnotatedLine>, idx: int, side_by_side: bool)
    requires
        0 <= idx < annotations.len(),
    ensures
        ({
            let s = block_start_spec(annotations, idx);
            &&& 0 <= s <= idx
            &&& is_comment_row(annotations[idx]) ==> forall|j: int|
                s <= j <= idx ==> #[trigger] annotations[j] == annotations[idx]
            &&& (s == 0 || annotations[s - 1] != annotations[idx] || !is_comment_row(annotations[idx]))
            &&& !is_comment_row(annotations[idx]) ==> s == idx
        }),
        (idx == 0 || annotations[idx - 1] != annotations[idx]) ==> block_start_spec(annotations, idx) == idx,
        is_comment_row(annotations[idx]) && (idx == 0 || annotations[idx - 1] != annotations[idx])
            ==> row_source_spec(annotations, idx, side_by_side) == (RowSource::CommentBlock {
            block: idx as usize,
            offset: 0,
        }),
{
    lemma_block_start_from(annotations, idx, idx);
    let s = block_start_spec(annotations, idx);
    assert forall|j: int| s <= j <= idx && is_comment_row(annotations[idx]) implies #[trigger] annotations[j]
        == annotations[idx] by {
        if j < idx {
            law_same_block_means_same_comment(annotations[j], annotations[idx]);
        }
    }
    if s > 0 {
        law_same_block_means_same_comment(annotations[s - 1], annotations[idx]);
    }
    if !is_comment_row(annotations[idx]) && s < idx {
        law_same_block_means_same_comment(annotations[s], annotations[idx]);
    }
    if idx > 0 && annotations[idx - 1] != annotations[idx] && s < idx {
        law_same_block_means_same_comment(annotations[idx - 1], annotations[idx]);
    }
    law_same_block_means_same_comment(annotations[idx], annotations[idx]);
}

/// A comment bar to draw in the gutter: the virtual row where the comment
/// box starts and the lines it refers to.
#[derive(Clone, Copy, Debug, PartialEq, Eq, Structural)]
pub struct CommentBar {
    pub start_row: usize,
    pub lines: Option<LineRange>,
}

pub open spec fn single_line(line: u32) -> LineRange {
    LineRange { start: line, end: line }
}

/// The editor's position: start, rows and hidden rows, or `None`.
pub open spec fn editor_shape<L>(input: Option<&CommentInput<L>>) -> Option<(nat, nat, nat)> {
    match input {
        Some(inp) => Some((inp.start as nat, inp.lines@.len(), inp.replaced as nat)),
        None => None,
    }
}

pub open spec fn shape_document_row(shape: Option<(nat, nat, nat)>, row: nat) -> DocumentRow {
    match shape {
        Some((s, l, r)) => document_row_spec(s, l, r, row),
        None => DocumentRow::Annotation(row as usize),
    }
}

pub open spec fn shape_virtual_row(shape: Option<(nat, nat, nat)>, block: nat) -> nat {
    match shape {
        Some((s, l, r)) => virtual_row_spec(s, l, r, block),
        None => block,
    }
}

/// The bar a block contributes: line comments at their line, remote
/// threads at the line they are anchored to, if any.
pub open spec fn block_bar(
    annotation: AnnotatedLine,
    thread_lines: Seq<Option<u32>>,
    start_row: nat,
) -> Seq<CommentBar> {
    match annotation {
        AnnotatedLine::LineComment { line, .. } => seq![
            CommentBar { start_row: start_row as usize, lines: Some(single_line(line)) },
        ],
        AnnotatedLine::RemoteThreadLine { thread_idx } => if thread_idx < thread_lines.len()
            && thread_lines[thread_idx as int] is Some {
            seq![
                CommentBar {
                    start_row: start_row as usize,
                    lines: Some(single_line(thread_lines[thread_idx as int]->0)),
                },
            ]
        } else {
            Seq::empty()
        },
        _ => Seq::empty(),
    }
}

/// The bars of the blocks met at virtual rows `row..end`, each block once,
/// skipping the blocks in `seen`.
pub open spec fn bars_from(
    annotations: Seq<AnnotatedLine>,
    thread_lines: Seq<Option<u32>>,
    shape: Option<(nat, nat, nat)>,
    row: nat,
    end: nat,
    seen: Set<int>,
) -> Seq<CommentBar>
    decreases end - row,
{
    if row >= end {
        Seq::empty()
    } else {
        match shape_document_row(shape, row) {
            DocumentRow::Annotation(a) => if a < annotations.len() {
                let b = block_start_spec(annotations, a as int);
                if seen.contains(b) {
                    bars_from(annotations, thread_lines, shape, row + 1, end, seen)
                } else {
                    block_bar(annotations[a as int], thread_lines, shape_virtual_row(shape, b as nat))
                        + bars_from(annotations, thread_lines, shape, row + 1, end, seen.insert(b))
                }
            } else {
                bars_from(annotations, thread_lines, shape, row + 1, end, seen)
            },
            DocumentRow::CommentInput(_) => bars_from(annotations, thread_lines, shape, row + 1, end, seen),
        }
    }
}

/// The comment bars to draw for the virtual rows `start..end`: one per
/// comment block that reaches into them (the row above the viewport
/// included, so a box scrolled halfway up keeps its bar), then the bar of
/// the editor when it writes a line comment.
pub open spec fn visible_bars_spec<L>(
    annotations: Seq<AnnotatedLine>,
    thread_lines: Seq<Option<u32>>,
    input: Option<&CommentInput<L>>,
    editor_bar: Option<Option<LineRange>>,
    start: nat,
    end: nat,
) -> Seq<CommentBar> {
    let first: nat = if start > 0 { (start - 1) as nat } else { 0 };
    bars_from(annotations, thread_lines, editor_shape(input), first, end, Set::empty()) + match (
        input,
        editor_bar,
    ) {
        (Some(inp), Some(range)) => seq![CommentBar { start_row: inp.start, lines: range }],
        _ => Seq::empty(),
    }
}

fn seen_contains(seen: &Vec<usize>, b: usize) -> (r: bool)
    ensures
        r == seen@.contains(b),
{
    for i in 0..seen.len()
        invariant
            forall|j: int| 0 <= j < i ==> seen@[j] != b,
    {
        if seen[i] == b {
            return true;
        }
    }
    false
}

/// The comment bars to draw for the virtual rows `start..end` of the
/// document. `thread_lines` holds, for each remote thread, the line it is
/// anchored to; `editor_bar` is the line range of the comment being
/// written when the editor is open for a line comment.
pub fn visible_comment_bars<L>(
    annotations: &Vec<AnnotatedLine>,
    thread_lines: &Vec<Option<u32>>,
    input: Option<&CommentInput<L>>,
    editor_bar: Option<Option<LineRange>>,
    start: usize,
    end: usize,
) -> (r: Vec<CommentBar>)
    requires
        input matches Some(inp) ==> end + inp.replaced + inp.lines@.len() + inp.start <= usize::MAX,
    ensures
        r@ == visible_bars_spec(annotations@, thread_lines@, input, editor_bar, start as nat, end as nat),
{
    let ghost shape = editor_shape(input);
    let mut bars: Vec<CommentBar> = Vec::new();
    let mut seen: Vec<usize> = Vec::new();
    let first = start.saturating_sub(1);
    let mut row = first;
    let ghost mut done: Seq<CommentBar> = Seq::empty();
    let ghost mut seen_set: Set<int> = Set::empty();
    while row < end
        invariant
            first <= row,
            shape == editor_shape(input),
            input matches Some(inp) ==> end + inp.replaced + inp.lines@.len() + inp.start <= usize::MAX,
            bars@ == done,
            done + bars_from(
                annotations@,
                thread_lines@,
                shape,
                row as nat,
                end as nat,
                seen_set,
            ) == bars_from(annotations@, thread_lines@, shape, first as nat, end as nat, Set::empty()),
            forall|b: usize| seen@.contains(b) <==> seen_set.contains(b as int),
            forall|b: int| seen_set.contains(b) ==> 0 <= b <= usize::MAX,
        decreases end - row,
    {
        let ghost rest = bars_from(annotations@, thread_lines@, shape, (row + 1) as nat, end as nat, seen_set);
        let doc = document_row(input, row);
        match doc {
            Some(DocumentRow::Annotation(annotation_idx)) => {
                if annotation_idx < annotations.len() {
                    let block = block_start(annotations, annotation_idx);
                    proof {
                        assert(block <= annotation_idx);
                    }
                    if !seen_contains(&seen, block) {
                        let ghost before_seen = seen@;
                        seen.push(block);
                        let ghost old_set = seen_set;
                        proof {
                            seen_set = seen_set.insert(block as int);
                            assert forall|b: usize| seen@.contains(b) <==> seen_set.contains(b as int) by {
                                if seen@.contains(b) && b != block {
                                    let k = choose|k: int| 0 <= k < seen@.len() && seen@[k] == b;
                                    assert(before_seen[k] == b);
                                }
                                if before_seen.contains(b) {
                                    let k = choose|k: int| 0 <= k < before_seen.len() && before_seen[k] == b;
                                    assert(seen@[k] == b);
                                }
                                if b == block {
                                    assert(seen@[seen@.len() - 1] == b);
                                }
                            }
                        }
                        let virtual_start = virtual_row_of(input, block);
                        let ghost new_bars = block_bar(annotations@[annotation_idx as int], thread_lines@, virtual_start as nat);
                        match &annotations[annotation_idx] {
                            AnnotatedLine::LineComment { line, .. } => {
                                bars.push(CommentBar { start_row: virtual_start, lines: Some(LineRange { start: *line, end: *line }) });
                            },
                            AnnotatedLine::RemoteThreadLine { thread_idx } => {
                                if *thread_idx < thread_lines.len() {
                                    match thread_lines[*thread_idx] {
                                        Some(line) => {
                                            bars.push(CommentBar { start_row: virtual_start, lines: Some(LineRange { start: line, end: line }) });
                                        },
                                        None => {},
                                    }
                                }
                            },
                            _ => {},
                        }
                        proof {
                            assert(bars@ =~= done + new_bars);
                            let rest2 = bars_from(annotations@, thread_lines@, shape, (row + 1) as nat, end as nat, old_set.insert(block as int));
                            assert(done + (new_bars + rest2) =~= (done + new_bars) + rest2);
                            done = done + new_bars;
                        }
                    } else {
                        proof {
                            assert(seen_set.contains(block as int));
                        }
                    }
                }
            },
            _ => {},
        }
        row = row + 1;
    }
    proof {
        assert(done + Seq::<CommentBar>::empty() =~= done);
    }
    match (input, editor_bar) {
        (Some(inp), Some(range)) => {
            bars.push(CommentBar { start_row: inp.start, lines: range });
        },
        _ => {},
    }
    proof {
        assert(bars@ =~= visible_bars_spec(annotations@, thread_lines@, input, editor_bar, start as nat, end as nat));
    }
    bars
}

/// Where a hunk lies in the new version of a file.
#[derive(Clone, Copy, Debug, PartialEq, Eq, Structural)]
pub struct HunkSpan {
    pub new_start: u32,
    pub new_count: u32,
}

/// The unchanged lines between the previous hunk (or the start of the
/// file) and a hunk starting at `new_start` in the new version.
pub open spec fn gap_between(previous: Option<HunkSpan>, new_start: u32) -> nat {
    let previous_end: int = match previous {
        Some(h) => h.new_start + h.new_count,
        None => 1,
    };
    if new_start >= previous_end {
        (new_start - previous_end) as nat
    } else {
        0
    }
}

/// The number of unchanged lines between the previous hunk (or the start
/// of the file) and a hunk starting at `new_start`.
pub fn calculate_gap(previous: Option<HunkSpan>, new_start: u32) -> (r: u32)
    requires
        previous matches Some(h) ==> h.new_start + h.new_count <= u32::MAX,
    ensures
        r == gap_between(previous, new_start),
{
    let previous_end: u32 = match previous {
        Some(h) => h.new_start + h.new_count,
        None => 1,
    };
    new_start.saturating_sub(previous_end)
}

/// The unchanged lines of a gap: in front of a hunk, the lines since the
/// previous hunk; after the last hunk, the rest of the file when its length
/// is known; nothing for a gap that does not exist.
pub open spec fn gap_size_spec(hunks: Seq<HunkSpan>, line_count: Option<u32>, hunk_idx: nat) -> nat {
    if hunk_idx < hunks.len() {
        gap_between(
            if hunk_idx > 0 {
                Some(hunks[hunk_idx - 1])
            } else {
                None
            },
            hunks[hunk_idx as int].new_start,
        )
    } else if hunk_idx == hunks.len() && hunks.len() > 0 && line_count is Some {
        let start: int = hunks.last().new_start + hunks.last().new_count;
        let total: int = line_count->0 as int;
        if start <= total {
            (total - start + 1) as nat
        } else {
            0
        }
    } else {
        0
    }
}

/// The sums that sizing a gap computes fit into `u32`: the end of the
/// hunk in front of the gap where it is needed, and the count of lines
/// after the last hunk.
pub open spec fn gap_sums_fit(hunks: Seq<HunkSpan>, line_count: Option<u32>, hunk_idx: nat) -> bool {
    &&& (0 < hunk_idx < hunks.len() || (0 < hunk_idx == hunks.len() && line_count is Some)) ==> hunks[hunk_idx
        - 1].new_start + hunks[hunk_idx - 1].new_count <= u32::MAX
    &&& (0 < hunk_idx == hunks.len() && line_count is Some) ==> {
        let start: int = hunks.last().new_start + hunks.last().new_count;
        start <= line_count->0 ==> line_count->0 - start + 1 <= u32::MAX
    }
}

/// The unchanged lines of a gap that are still hidden: its size less the
/// lines already expanded from its top and from its bottom. `hunks` and
/// `line_count` describe the file of the gap, `None` when there is no such
/// file.
pub fn gap_remaining(
    file: Option<(&Vec<HunkSpan>, Option<u32>)>,
    gap: GapId,
    expanded_top: usize,
    expanded_bottom: usize,
) -> (r: usize)
    requires
        file matches Some((hunks, line_count)) ==> gap_sums_fit(hunks@, line_count, gap.hunk_idx as nat),
        expanded_top + expanded_bottom <= usize::MAX,
    ensures
        r == match file {
            None => 0,
            Some((hunks, line_count)) => {
                let size = gap_size_spec(hunks@, line_count, gap.hunk_idx as nat);
                if size >= expanded_top + expanded_bottom {
                    (size - expanded_top - expanded_bottom) as nat
                } else {
                    0
                }
            },
        },
{
    let (hunks, line_count) = match file {
        Some(f) => f,
        None => {
            return 0;
        },
    };
    let gap_size: usize = if gap.hunk_idx < hunks.len() {
        let previous = if gap.hunk_idx > 0 {
            Some(hunks[gap.hunk_idx - 1])
        } else {
            None
        };
        let g = calculate_gap(previous, hunks[gap.hunk_idx].new_start);
        g as usize
    } else if gap.hunk_idx == hunks.len() && hunks.len() > 0 {
        let last = hunks[hunks.len() - 1];
        match line_count {
            Some(total) => {
                let start = last.new_start + last.new_count;
                if start <= total {
                    let lines: u32 = total - start + 1;
                    lines as usize
                } else {
                    0
                }
            },
            None => 0,
        }
    } else {
        0
    };
    gap_size.saturating_sub(expanded_top + expanded_bottom)
}

/// Line `idx` of an expanded gap: the lines expanded from its top come
/// first, then those expanded from its bottom.
pub fn expanded_line<'a, L>(top: Option<&'a Vec<L>>, bottom: Option<&'a Vec<L>>, idx: usize) -> (r:
    Option<&'a L>)
    ensures
        ({
            let top_len: nat = match top {
                Some(t) => t@.len(),
                None => 0,
            };
            if idx < top_len {
                r == Some(&top->0@[idx as int])
            } else {
                match bottom {
                    Some(b) => if idx - top_len < b@.len() {
                        r == Some(&b@[idx - top_len])
                    } else {
                        r is None
                    },
                    None => r is None,
                }
            }
        }),
{
    let top_len = match top {
        Some(t) => t.len(),
        None => 0,
    };
    if idx < top_len {
        match top {
            Some(t) => Some(&t[idx]),
            None => None,
        }
    } else {
        match bottom {
            Some(b) => if idx - top_len < b.len() {
                Some(&b[idx - top_len])
            } else {
                None
            },
            None => None,
        }
    }
}

/// The virtual rows `start..end` that the viewport shows: from the scroll
/// offset (kept inside the document) for as many rows as fit.
pub fn viewport_rows(scroll_offset: usize, viewport_height: usize, total_rows: usize) -> (r: (
    usize,
    usize,
))
    ensures
        r.0 == if scroll_offset < total_rows {
            scroll_offset
        } else {
            total_rows
        },
        r.1 == if r.0 + viewport_height < total_rows {
            r.0 + viewport_height
        } else {
            total_rows as int
        },
        r.0 <= r.1 <= total_rows,
{
    let start = if scroll_offset < total_rows {
        scroll_offset
    } else {
        total_rows
    };
    let reach = start.saturating_add(viewport_height);
    let end = if reach < total_rows {
        reach
    } else {
        total_rows
    };
    (start, end)
}

pub open spec fn sum_prefix(heights: Seq<usize>, n: int) -> int
    decreases n,
{
    if n <= 0 || heights.len() == 0 {
        0
    } else if n > heights.len() {
        sum_prefix(heights, heights.len() as int)
    } else {
        sum_prefix(heights, n - 1) + heights[n - 1]
    }
}

/// The screen row, within the viewport, of logical row `logical_offset`:
/// the visual rows of the logical rows before it, summed.
pub fn visual_offset(row_heights: &Vec<usize>, logical_offset: usize) -> (r: usize)
    requires
        sum_prefix(row_heights@, logical_offset as int) <= usize::MAX,
    ensures
        r == sum_prefix(row_heights@, logical_offset as int),
{
    let n = if logical_offset < row_heights.len() {
        logical_offset
    } else {
        row_heights.len()
    };
    let mut total: usize = 0;
    let mut i: usize = 0;
    proof {
        lemma_sum_prefix_monotone(row_heights@, n as int, logical_offset as int);
    }
    while i < n
        invariant
            n <= row_heights@.len(),
            i <= n,
            sum_prefix(row_heights@, n as int) <= usize::MAX,
            total == sum_prefix(row_heights@, i as int),
        decreases n - i,
    {
        proof {
            lemma_sum_prefix_monotone(row_heights@, i + 1, n as int);
        }
        total = total + row_heights[i];
        i = i + 1;
    }
    total
}

proof fn lemma_sum_prefix_monotone(heights: Seq<usize>, a: int, b: int)
    requires
        0 <= a <= b,
    ensures
        sum_prefix(heights, a) <= sum_prefix(heights, b),
        b > heights.len() ==> sum_prefix(heights, b) == sum_prefix(heights, heights.len() as int),
    decreases b,
{
    if b > heights.len() {
        if heights.len() > 0 {
            lemma_sum_prefix_monotone(heights, if a < heights.len() { a } else { heights.len() as int }, heights.len() as int);
        }
    } else if a < b {
        lemma_sum_prefix_monotone(heights, a, b - 1);
    }
}

/// The horizontal scroll position after a redraw: never past the widest
/// row, and none at all when rows are wrapped.
pub fn clamp_scroll_x(scroll_x: usize, max_content_width: usize, viewport_width: usize, wrap_lines: bool) -> (r: usize)
    ensures
        wrap_lines ==> r == 0,
        !wrap_lines ==> r == if max_content_width >= viewport_width {
            if scroll_x < max_content_width - viewport_width { scroll_x as int } else { max_content_width - viewport_width }
        } else {
            0
        },
{
    let max_scroll_x = max_content_width.saturating_sub(viewport_width);
    let clamped = if scroll_x < max_scroll_x { scroll_x } else { max_scroll_x };
    if wrap_lines {
        0
    } else {
        clamped
    }
}

/// The lines a comment being written refers to: none for a review-level or
/// file-level comment, otherwise its selected range, or its single line.
pub open spec fn editor_line_range_spec(
    review_level: bool,
    file_level: bool,
    range: Option<LineRange>,
    line: Option<u32>,
) -> Option<LineRange> {
    if review_level || file_level {
        None
    } else {
        match range {
            Some(r) => Some(r),
            None => match line {
                Some(l) => Some(single_line(l)),
                None => None,
            },
        }
    }
}

/// The lines a comment being written refers to.
pub fn editor_line_range(
    review_level: bool,
    file_level: bool,
    range: Option<LineRange>,
    line: Option<u32>,
) -> (r: Option<LineRange>)
    ensures
        r == editor_line_range_spec(review_level, file_level, range, line),
{
    if review_level || file_level {
        None
    } else {
        match range {
            Some(r) => Some(r),
            None => match line {
                Some(l) => Some(LineRange { start: l, end: l }),
                None => None,
            },
        }
    }
}

/// Where the content of an annotation row comes from when it is drawn.
#[derive(Clone, Copy, Debug, PartialEq, Eq, Structural)]
pub enum RowSource {
    /// There is no such annotation row.
    Missing,
    /// Row `offset` of the rendered comment block that starts at row `block`.
    CommentBlock { block: usize, offset: usize },
    /// An expanded context line drawn in both columns.
    SideBySideExpanded { gap_id: GapId, line_idx: usize },
    /// A side-by-side pair of diff lines.
    SideBySideLine,
    /// A row drawn on its own: headers, banners, expanders, unified diff lines.
    Simple,
}

pub open spec fn row_source_spec(annotations: Seq<AnnotatedLine>, idx: int, side_by_side: bool) -> RowSource {
    if idx < 0 || idx >= annotations.len() {
        RowSource::Missing
    } else {
        let a = annotations[idx];
        if is_block_row(a) {
            let b = block_start_spec(annotations, idx);
            RowSource::CommentBlock { block: b as usize, offset: (idx - b) as usize }
        } else if side_by_side && a is ExpandedContext {
            RowSource::SideBySideExpanded { gap_id: a->ExpandedContext_gap_id, line_idx: a->ExpandedContext_line_idx }
        } else if side_by_side && a is SideBySideLine {
            RowSource::SideBySideLine
        } else {
            RowSource::Simple
        }
    }
}

/// Where the content of annotation row `idx` comes from: comment-like rows
/// are cut from their block's rendered lines, side-by-side rows have their
/// own renderers, all others are drawn alone.
pub fn annotation_row_source(annotations: &Vec<AnnotatedLine>, idx: usize, side_by_side: bool) -> (r: RowSource)
    ensures
        r == row_source_spec(annotations@, idx as int, side_by_side),
{
    if idx >= annotations.len() {
        return RowSource::Missing;
    }
    let annotation = &annotations[idx];
    if same_block(annotation, annotation) {
        let start = block_start(annotations, idx);
        return RowSource::CommentBlock { block: start, offset: idx - start };
    }
    if side_by_side {
        match annotation {
            AnnotatedLine::ExpandedContext { gap_id, line_idx } => {
                return RowSource::SideBySideExpanded { gap_id: *gap_id, line_idx: *line_idx };
            },
            AnnotatedLine::SideBySideLine { .. } => {
                return RowSource::SideBySideLine;
            },
            _ => {},
        }
    }
    RowSource::Simple
}

/// The text of the header above a pull request's conversation comments;
/// without pull request information its number reads 0.
pub open spec fn issue_comments_header_spec(number: Option<u64>) -> Seq<char> {
    let n: u64 = match number {
        Some(n) => n,
        None => 0,
    };
    "═══ PR #"@ + decimal(n as nat) + " Comments "@
}

/// Builds the header text above a pull request's conversation comments.
pub fn issue_comments_header(number: Option<u64>) -> (r: String)
    ensures
        r@ == issue_comments_header_spec(number),
{
    let n: u64 = match number {
        Some(n) => n,
        None => 0,
    };
    let mut text = String::from_str("═══ PR #");
    push_decimal(&mut text, n);
    text.append(" Comments ");
    text
}

/// The scroll and size state of the diff view.
pub struct DiffState {
    pub scroll_offset: usize,
    pub viewport_height: usize,
    pub max_content_width: usize,
    pub scroll_x: usize,
    pub wrap_lines: bool,
}

/// The horizontal scroll that the view keeps: none while wrapping,
/// otherwise at most as far as the widest row reaches past the viewport.
pub open spec fn scroll_x_spec(scroll_x: nat, max_content_width: nat, viewport_width: nat, wrap_lines: bool) -> nat {
    if wrap_lines {
        0
    } else if max_content_width >= viewport_width {
        if scroll_x < max_content_width - viewport_width {
            scroll_x
        } else {
            (max_content_width - viewport_width) as nat
        }
    } else {
        0
    }
}

/// The largest of the widths, 0 for none.
pub open spec fn max_width(widths: Seq<usize>) -> nat
    decreases widths.len(),
{
    if widths.len() == 0 {
        0
    } else {
        let m = max_width(widths.drop_last());
        if widths.last() > m {
            widths.last() as nat
        } else {
            m
        }
    }
}

/// The editor as the document shows it: only one anchored within the
/// annotation rows is shown.
pub open spec fn shown_editor<L>(input: Option<&CommentInput<L>>, annotations: nat) -> Option<(nat, nat, nat)> {
    match input {
        Some(inp) => if inp.start <= annotations {
            Some((inp.start as nat, inp.lines@.len(), inp.replaced as nat))
        } else {
            None
        },
        None => None,
    }
}

/// How many virtual rows the document has with the editor, if shown.
pub open spec fn document_total_rows(editor: Option<(nat, nat, nat)>, annotations: nat) -> nat {
    match editor {
        Some((_, len, replaced)) => (annotations + len - if replaced < annotations {
            replaced
        } else {
            annotations
        }) as nat,
        None => annotations,
    }
}

/// The first virtual row that the viewport shows.
pub open spec fn window_start(scroll_offset: nat, total_rows: nat) -> nat {
    if scroll_offset < total_rows {
        scroll_offset
    } else {
        total_rows
    }
}

/// The virtual row after the last one that the viewport shows.
pub open spec fn window_end(scroll_offset: nat, height: nat, total_rows: nat) -> nat {
    if window_start(scroll_offset, total_rows) + height < total_rows {
        window_start(scroll_offset, total_rows) + height
    } else {
        total_rows
    }
}

/// The window of a diff frame: the virtual rows `start..end` to draw, the
/// document's row count, and the editor's offset `(start, rows, replaced)`
/// when it is shown.
pub struct DiffWindow {
    pub start: usize,
    pub end: usize,
    pub total_rows: usize,
    pub editor: Option<(usize, usize, usize)>,
}

/// The layout of a diff frame: its window, the height and widest row of
/// the viewport, and the horizontal scroll kept.
pub struct DiffFrame {
    pub window: DiffWindow,
    pub viewport_height: usize,
    pub max_content_width: usize,
    pub scroll_x: usize,
}

pub open spec fn window_spec<L>(
    scroll_offset: nat,
    annotations: nat,
    input: Option<&CommentInput<L>>,
    height: nat,
    w: DiffWindow,
) -> bool {
    let editor = shown_editor(input, annotations);
    let total = document_total_rows(editor, annotations);
    &&& w.total_rows == total
    &&& w.start == window_start(scroll_offset, total)
    &&& w.end == window_end(scroll_offset, height, total)
    &&& w.editor == match editor {
        Some((s, l, r)) => Some((s as usize, l as usize, r as usize)),
        None => None,
    }
}

/// Resolves which virtual rows a diff frame of `inner`'s size shows, and
/// records the viewport height: only these rows are built and drawn.
pub fn diff_window<L>(
    state: &mut DiffState,
    annotations: usize,
    input: Option<&CommentInput<L>>,
    inner: Area,
) -> (r: DiffWindow)
    requires
        input matches Some(inp) ==> annotations + inp.lines@.len() <= usize::MAX,
    ensures
        window_spec(old(state).scroll_offset as nat, annotations as nat, input, inner.height as nat, r),
        r.start <= r.end <= r.total_rows,
        final(state).viewport_height == inner.height,
        final(state).scroll_offset == old(state).scroll_offset,
        final(state).scroll_x == old(state).scroll_x,
        final(state).max_content_width == old(state).max_content_width,
        final(state).wrap_lines == old(state).wrap_lines,
{
    let height = inner.height as usize;
    state.viewport_height = height;
    let (total_rows, editor) = match input {
        Some(inp) => if inp.start <= annotations {
            (inp.total_rows(annotations), Some((inp.start, inp.lines.len(), inp.replaced)))
        } else {
            (annotations, None)
        },
        None => (annotations, None),
    };
    let (start, end) = viewport_rows(state.scroll_offset, height, total_rows);
    DiffWindow { start, end, total_rows, editor }
}

fn widest(widths: &Vec<usize>) -> (r: usize)
    ensures
        r == max_width(widths@),
{
    let mut m: usize = 0;
    for i in 0..widths.len()
        invariant
            m == max_width(widths@.take(i as int)),
    {
        proof {
            assert(widths@.take(i + 1).drop_last() =~= widths@.take(i as int));
        }
        if widths[i] > m {
            m = widths[i];
        }
    }
    proof {
        assert(widths@.take(widths@.len() as int) =~= widths@);
    }
    m
}

/// Lays a diff frame out in `inner`: its window of virtual rows (see
/// [`diff_window`]), then, from the display widths of the rows drawn, the
/// widest row and the horizontal scroll kept, which are recorded in the
/// state.
pub fn layout_diff_frame<L>(
    state: &mut DiffState,
    annotations: usize,
    input: Option<&CommentInput<L>>,
    inner: Area,
    row_widths: &Vec<usize>,
) -> (r: DiffFrame)
    requires
        input matches Some(inp) ==> annotations + inp.lines@.len() <= usize::MAX,
    ensures
        window_spec(old(state).scroll_offset as nat, annotations as nat, input, inner.height as nat, r.window),
        r.window.start <= r.window.end <= r.window.total_rows,
        r.viewport_height == inner.height,
        r.max_content_width == max_width(row_widths@),
        r.scroll_x == scroll_x_spec(
            old(state).scroll_x as nat,
            max_width(row_widths@),
            inner.width as nat,
            old(state).wrap_lines,
        ),
        final(state).viewport_height == inner.height,
        final(state).max_content_width == r.max_content_width,
        final(state).scroll_x == r.scroll_x,
        final(state).scroll_offset == old(state).scroll_offset,
        final(state).wrap_lines == old(state).wrap_lines,
{
    let window = diff_window(state, annotations, input, inner);
    let max_content_width = widest(row_widths);
    state.max_content_width = max_content_width;
    let scroll_x = clamp_scroll_x(state.scroll_x, max_content_width, inner.width as usize, state.wrap_lines);
    state.scroll_x = scroll_x;
    DiffFrame { window, viewport_height: inner.height as usize, max_content_width, scroll_x }
}

/// Where the text of a comment block comes from: the pull request's
/// information, one of its conversation comments, a review comment, a
/// remote review summary, a file comment, a line comment with the line
/// range it covers, or a remote thread and whether it is shown muted.
#[derive(Clone, Copy, Debug, PartialEq, Eq, Structural)]
pub enum CommentSource {
    PrInfo,
    IssueComment { comment_idx: usize },
    ReviewComment { comment_idx: usize },
    RemoteReviewSummary { summary_idx: usize },
    FileComment { file_idx: usize, comment_idx: usize },
    LineComment { file_idx: usize, comment_idx: usize, range: LineRange },
    RemoteThread { thread_idx: usize, muted: bool },
}

/// A stored line comment: the side it is attached to (the new side when
/// unset) and the range it covers (its own line when unset).
#[derive(Clone, Copy, Debug, PartialEq, Eq, Structural)]
pub struct LineCommentFacts {
    pub side: Option<LineSide>,
    pub range: Option<LineRange>,
}

/// The stored comments of a reviewed file: how many file comments it has,
/// and its line comments by line.
pub struct FileCommentFacts {
    pub file_comments: usize,
    pub line_comments: Vec<(u32, Vec<LineCommentFacts>)>,
}

/// What comment blocks are looked up in: the number of conversation
/// comments of the pull request (`None` without pull request information),
/// the numbers of review comments and remote review summaries, the stored
/// comments of each diff file (`None` for a file without a review), and for
/// each remote thread whether it is shown and then whether muted.
pub struct CommentLookup {
    pub pr_issue_comments: Option<usize>,
    pub review_comments: usize,
    pub review_summaries: usize,
    pub files: Vec<Option<FileCommentFacts>>,
    pub threads: Vec<Option<bool>>,
}

/// The comments stored for `line`: those of its first entry.
pub open spec fn comments_on_line(entries: Seq<(u32, Vec<LineCommentFacts>)>, line: u32) -> Option<
    Seq<LineCommentFacts>,
>
    decreases entries.len(),
{
    if entries.len() == 0 {
        None
    } else if entries[0].0 == line {
        Some(entries[0].1@)
    } else {
        comments_on_line(entries.drop_first(), line)
    }
}

/// The side a stored line comment is attached to.
pub open spec fn comment_side(c: LineCommentFacts) -> LineSide {
    match c.side {
        Some(s) => s,
        None => LineSide::New,
    }
}

/// The source of the comment block that annotation `a` belongs to: `None`
/// for a row that is no comment, or whose comment does not exist, or for a
/// line comment stored on the other side, or for a remote thread that is
/// not shown.
pub open spec fn comment_block_spec(a: AnnotatedLine, lookup: CommentLookup) -> Option<CommentSource> {
    match a {
        AnnotatedLine::PrInfoLine => if lookup.pr_issue_comments is Some {
            Some(CommentSource::PrInfo)
        } else {
            None
        },
        AnnotatedLine::IssueComment { comment_idx } => match lookup.pr_issue_comments {
            Some(n) => if comment_idx < n {
                Some(CommentSource::IssueComment { comment_idx })
            } else {
                None
            },
            None => None,
        },
        AnnotatedLine::ReviewComment { comment_idx } => if comment_idx < lookup.review_comments {
            Some(CommentSource::ReviewComment { comment_idx })
        } else {
            None
        },
        AnnotatedLine::RemoteReviewSummaryLine { summary_idx } => if summary_idx < lookup.review_summaries {
            Some(CommentSource::RemoteReviewSummary { summary_idx })
        } else {
            None
        },
        AnnotatedLine::FileComment { file_idx, comment_idx } => if file_idx < lookup.files@.len() {
            match lookup.files@[file_idx as int] {
                Some(f) => if comment_idx < f.file_comments {
                    Some(CommentSource::FileComment { file_idx, comment_idx })
                } else {
                    None
                },
                None => None,
            }
        } else {
            None
        },
        AnnotatedLine::LineComment { file_idx, line, side, comment_idx } => if file_idx < lookup.files@.len() {
            match lookup.files@[file_idx as int] {
                Some(f) => match comments_on_line(f.line_comments@, line) {
                    Some(cs) => if comment_idx < cs.len() && comment_side(cs[comment_idx as int]) == side {
                        Some(
                            CommentSource::LineComment {
                                file_idx,
                                comment_idx,
                                range: match cs[comment_idx as int].range {
                                    Some(r) => r,
                                    None => single_line(line),
                                },
                            },
                        )
                    } else {
                        None
                    },
                    None => None,
                },
                None => None,
            }
        } else {
            None
        },
        AnnotatedLine::RemoteThreadLine { thread_idx } => if thread_idx < lookup.threads@.len() {
            match lookup.threads@[thread_idx as int] {
                Some(muted) => Some(CommentSource::RemoteThread { thread_idx, muted }),
                None => None,
            }
        } else {
            None
        },
        _ => None,
    }
}

fn find_line_comments(entries: &Vec<(u32, Vec<LineCommentFacts>)>, line: u32) -> (r: Option<&Vec<LineCommentFacts>>)
    ensures
        match r {
            Some(v) => comments_on_line(entries@, line) == Some(v@),
            None => comments_on_line(entries@, line) is None,
        },
{
    let mut i: usize = 0;
    proof {
        assert(entries@.skip(0) =~= entries@);
    }
    while i < entries.len()
        invariant
            i <= entries@.len(),
            comments_on_line(entries@, line) == comments_on_line(entries@.skip(i as int), line),
        decreases entries@.len() - i,
    {
        proof {
            assert(entries@.skip(i as int).drop_first() =~= entries@.skip(i + 1));
            assert(entries@.skip(i as int)[0] == entries@[i as int]);
        }
        if entries[i].0 == line {
            return Some(&entries[i].1);
        }
        i = i + 1;
    }
    proof {
        assert(entries@.skip(i as int) =~= Seq::<(u32, Vec<LineCommentFacts>)>::empty());
    }
    None
}

/// Finds the source of the comment block that annotation `a` belongs to.
pub fn comment_block_source(a: &AnnotatedLine, lookup: &CommentLookup) -> (r: Option<CommentSource>)
    ensures
        r == comment_block_spec(*a, *lookup),
{
    match *a {
        AnnotatedLine::PrInfoLine => match lookup.pr_issue_comments {
            Some(_) => Some(CommentSource::PrInfo),
            None => None,
        },
        AnnotatedLine::IssueComment { comment_idx } => match lookup.pr_issue_comments {
            Some(n) => if comment_idx < n {
                Some(CommentSource::IssueComment { comment_idx })
            } else {
                None
            },
            None => None,
        },
        AnnotatedLine::ReviewComment { comment_idx } => if comment_idx < lookup.review_comments {
            Some(CommentSource::ReviewComment { comment_idx })
        } else {
            None
        },
        AnnotatedLine::RemoteReviewSummaryLine { summary_idx } => if summary_idx < lookup.review_summaries {
            Some(CommentSource::RemoteReviewSummary { summary_idx })
        } else {
            None
        },
        AnnotatedLine::FileComment { file_idx, comment_idx } => if file_idx < lookup.files.len() {
            match &lookup.files[file_idx] {
                Some(f) => if comment_idx < f.file_comments {
                    Some(CommentSource::FileComment { file_idx, comment_idx })
                } else {
                    None
                },
                None => None,
            }
        } else {
            None
        },
        AnnotatedLine::LineComment { file_idx, line, side, comment_idx } => if file_idx < lookup.files.len() {
            match &lookup.files[file_idx] {
                Some(f) => match find_line_comments(&f.line_comments, line) {
                    Some(cs) => if comment_idx < cs.len() {
                        let c = cs[comment_idx];
                        let stored_side = match c.side {
                            Some(s) => s,
                            None => LineSide::New,
                        };
                        let same_side = match (stored_side, side) {
                            (LineSide::Old, LineSide::Old) => true,
                            (LineSide::New, LineSide::New) => true,
                            _ => false,
                        };
                        if same_side {
                            let range = match c.range {
                                Some(r) => r,
                                None => LineRange { start: line, end: line },
                            };
                            Some(CommentSource::LineComment { file_idx, comment_idx, range })
                        } else {
                            None
                        }
                    } else {
                        None
                    },
                    None => None,
                },
                None => None,
            }
        } else {
            None
        },
        AnnotatedLine::RemoteThreadLine { thread_idx } => if thread_idx < lookup.threads.len() {
            match lookup.threads[thread_idx] {
                Some(muted) => Some(CommentSource::RemoteThread { thread_idx, muted }),
                None => None,
            }
        } else {
            None
        },
        _ => None,
    }
}

/// The comments stored for a line are those of the first entry for that
/// line, and there are none when no entry is for it.
pub proof fn law_comments_on_line_first_entry(entries: Seq<(u32, Vec<LineCommentFacts>)>, line: u32)
    ensures
        comments_on_line(entries, line) is None <==> forall|j: int| 0 <= j < entries.len() ==> #[trigger] entries[j].0
            != line,
        comments_on_line(entries, line) is Some ==> exists|j: int|
            0 <= j < entries.len() && #[trigger] entries[j].0 == line && comments_on_line(entries, line) == Some(
                entries[j].1@,
            ) && forall|k: int| 0 <= k < j ==> #[trigger] entries[k].0 != line,
    decreases entries.len(),
{
    if entries.len() > 0 {
        law_comments_on_line_first_entry(entries.drop_first(), line);
        if entries[0].0 == line {
            assert(entries[0].0 == line);
        } else {
            let rest = entries.drop_first();
            if comments_on_line(rest, line) is Some {
                let j = choose|j: int|
                    0 <= j < rest.len() && #[trigger] rest[j].0 == line && comments_on_line(rest, line) == Some(
                        rest[j].1@,
                    ) && forall|k: int| 0 <= k < j ==> #[trigger] rest[k].0 != line;
                assert(entries[j + 1] == rest[j]);
                assert forall|k: int| 0 <= k < j + 1 implies #[trigger] entries[k].0 != line by {
                    if k > 0 {
                        assert(entries[k] == rest[k - 1]);
                    }
                }
            } else {
                assert forall|j: int| 0 <= j < entries.len() implies #[trigger] entries[j].0 != line by {
                    if j > 0 {
                        assert(entries[j] == rest[j - 1]);
                    }
                }
            }
        }
    }
}

/// Every stored comment is found and nothing else is: a comment row finds
/// its source exactly when the comment it names is stored (for a line
/// comment, stored on that line and on the row's side, where an unset side
/// is the new side; for a remote thread, shown), and then the source names
/// the same comment, with a line comment's own range or else its line;
/// rows that are no comments find nothing.
pub proof fn law_comment_sources_are_the_stored_comments(a: AnnotatedLine, lookup: CommentLookup)
    ensures
        ({
            let r = comment_block_spec(a, lookup);
            &&& !is_comment_row(a) ==> r is None
            &&& a is PrInfoLine ==> (r is Some <==> lookup.pr_issue_comments is Some) && (r is Some ==> r
                == Some(CommentSource::PrInfo))
            &&& a matches AnnotatedLine::IssueComment { comment_idx } ==> (r is Some <==> (
            lookup.pr_issue_comments matches Some(n) && comment_idx < n)) && (r is Some ==> r == Some(
                CommentSource::IssueComment { comment_idx },
            ))
            &&& a matches AnnotatedLine::ReviewComment { comment_idx } ==> (r is Some <==> comment_idx
                < lookup.review_comments) && (r is Some ==> r == Some(
                CommentSource::ReviewComment { comment_idx },
            ))
            &&& a matches AnnotatedLine::RemoteReviewSummaryLine { summary_idx } ==> (r is Some <==> summary_idx
                < lookup.review_summaries) && (r is Some ==> r == Some(
                CommentSource::RemoteReviewSummary { summary_idx },
            ))
            &&& a matches AnnotatedLine::FileComment { file_idx, comment_idx } ==> (r is Some <==> (file_idx
                < lookup.files@.len() && (lookup.files@[file_idx as int] matches Some(f) && comment_idx
                < f.file_comments))) && (r is Some ==> r == Some(
                CommentSource::FileComment { file_idx, comment_idx },
            ))
            &&& a matches AnnotatedLine::RemoteThreadLine { thread_idx } ==> (r is Some <==> (thread_idx
                < lookup.threads@.len() && lookup.threads@[thread_idx as int] is Some)) && (r is Some ==> r
                == Some(
                CommentSource::RemoteThread {
                    thread_idx,
                    muted: lookup.threads@[thread_idx as int]->0,
                },
            ))
            &&& a matches AnnotatedLine::LineComment { file_idx, line, side, comment_idx } ==> {
                let f = lookup.files@[file_idx as int]->0;
                let cs = comments_on_line(f.line_comments@, line)->0;
                let c = cs[comment_idx as int];
                let stored_side = match c.side {
                    Some(s) => s,
                    None => LineSide::New,
                };
                &&& r is Some <==> (file_idx < lookup.files@.len() && lookup.files@[file_idx as int] is Some
                    && comments_on_line(f.line_comments@, line) is Some && comment_idx < cs.len() && stored_side
                    == side)
                &&& r is Some ==> r == Some(
                    CommentSource::LineComment {
                        file_idx,
                        comment_idx,
                        range: match c.range {
                            Some(x) => x,
                            None => LineRange { start: line, end: line },
                        },
                    },
                )
            }
        }),
{
}

/// The size of a gap: in front of the first hunk, the lines before its
/// start; between two hunks, the lines from the end of the earlier one to
/// the start of the later one (none where they touch or overlap); after
/// the last hunk, the lines from its end to the end of the file, counted
/// only when the file's length is known; no lines for a gap past that.
/// What stays hidden is that size less the lines already expanded, never
/// below zero, so expanding more never shows fewer lines.
pub proof fn law_gap_sizes(hunks: Seq<HunkSpan>, line_count: Option<u32>, hunk_idx: nat, expanded: nat, more: nat)
    ensures
        hunks.len() > 0 && hunk_idx == 0 ==> gap_size_spec(hunks, line_count, hunk_idx) == if hunks[0].new_start
            >= 1 {
            hunks[0].new_start - 1
        } else {
            0
        },
        0 < hunk_idx < hunks.len() ==> gap_size_spec(hunks, line_count, hunk_idx) == if hunks[hunk_idx as int].new_start
            >= hunks[hunk_idx - 1].new_start + hunks[hunk_idx - 1].new_count {
            hunks[hunk_idx as int].new_start - (hunks[hunk_idx - 1].new_start + hunks[hunk_idx - 1].new_count)
        } else {
            0
        },
        hunks.len() > 0 && hunk_idx == hunks.len() && line_count is Some ==> gap_size_spec(
            hunks,
            line_count,
            hunk_idx,
        ) == if hunks[hunks.len() - 1].new_start + hunks[hunks.len() - 1].new_count <= line_count->0 {
            line_count->0 + 1 - (hunks[hunks.len() - 1].new_start + hunks[hunks.len() - 1].new_count)
        } else {
            0
        },
        (hunk_idx == hunks.len() && line_count is None) || hunk_idx > hunks.len() || hunks.len() == 0
            ==> gap_size_spec(hunks, line_count, hunk_idx) == 0,
        ({
            let size = gap_size_spec(hunks, line_count, hunk_idx);
            let hidden = if size >= expanded { size - expanded } else { 0 };
            let hidden_more = if size >= expanded + more { size - expanded - more } else { 0 };
            &&& hidden <= size
            &&& hidden_more <= hidden
            &&& (hidden == 0 <==> expanded >= size)
        }),
{
}

/// The viewport shows a window of consecutive rows of the document: it
/// starts at the scroll offset (or at the end of a shorter document) and
/// holds as many rows as fit, fewer only at the end of the document.
pub proof fn law_window_shows_what_fits(scroll_offset: nat, height: nat, total: nat)
    ensures
        window_start(scroll_offset, total) == if scroll_offset <= total { scroll_offset } else { total },
        window_start(scroll_offset, total) <= window_end(scroll_offset, height, total) <= total,
        window_end(scroll_offset, height, total) - window_start(scroll_offset, total) == if window_start(
            scroll_offset,
            total,
        ) + height <= total {
            height as int
        } else {
            total - window_start(scroll_offset, total)
        },
{
}

/// Whether `bar` is the comment bar of the block shown at virtual row `v`:
/// the row shows an annotation row that exists and is a line comment (the
/// bar covers its line) or a remote thread anchored to a line (the bar
/// covers that line), and the bar starts at the virtual row where the
/// block starts.
pub open spec fn bar_marks_row(
    annotations: Seq<AnnotatedLine>,
    thread_lines: Seq<Option<u32>>,
    shape: Option<(nat, nat, nat)>,
    v: nat,
    bar: CommentBar,
) -> bool {
    match shape_document_row(shape, v) {
        DocumentRow::Annotation(a) => a < annotations.len() && bar.start_row == shape_virtual_row(
            shape,
            block_start_spec(annotations, a as int) as nat,
        ) as usize && match annotations[a as int] {
            AnnotatedLine::LineComment { line, .. } => bar.lines == Some(LineRange { start: line, end: line }),
            AnnotatedLine::RemoteThreadLine { thread_idx } => thread_idx < thread_lines.len()
                && thread_lines[thread_idx as int] is Some && bar.lines == Some(
                LineRange { start: thread_lines[thread_idx as int]->0, end: thread_lines[thread_idx as int]->0 },
            ),
            _ => false,
        },
        DocumentRow::CommentInput(_) => false,
    }
}

/// Every bar marks a row among `row..end`.
pub open spec fn bars_mark_rows(
    annotations: Seq<AnnotatedLine>,
    thread_lines: Seq<Option<u32>>,
    shape: Option<(nat, nat, nat)>,
    row: nat,
    end: nat,
    bars: Seq<CommentBar>,
) -> bool {
    forall|k: int| 0 <= k < bars.len() ==> #[trigger] bar_marked(annotations, thread_lines, shape, row, end, bars[k])
}

/// The bar marks some row among `row..end`.
pub open spec fn bar_marked(
    annotations: Seq<AnnotatedLine>,
    thread_lines: Seq<Option<u32>>,
    shape: Option<(nat, nat, nat)>,
    row: nat,
    end: nat,
    bar: CommentBar,
) -> bool {
    exists|v: nat| row <= v < end && #[trigger] bar_marks_row(annotations, thread_lines, shape, v, bar)
}

/// Every comment bar met while walking the virtual rows `row..end` belongs
/// to a line comment or an anchored remote thread shown at one of those
/// rows, starts where that comment's block starts, and covers the
/// comment's line; other rows, and editor rows, make no bar.
pub proof fn law_bars_belong_to_shown_comments(
    annotations: Seq<AnnotatedLine>,
    thread_lines: Seq<Option<u32>>,
    shape: Option<(nat, nat, nat)>,
    row: nat,
    end: nat,
    seen: Set<int>,
)
    ensures
        bars_mark_rows(annotations, thread_lines, shape, row, end, bars_from(annotations, thread_lines, shape, row, end, seen)),
    decreases end - row,
{
    if row < end {
        let r = bars_from(annotations, thread_lines, shape, row, end, seen);
        let (next_seen, head): (Set<int>, Seq<CommentBar>) = match shape_document_row(shape, row) {
            DocumentRow::Annotation(a) => if a < annotations.len() {
                let b = block_start_spec(annotations, a as int);
                if seen.contains(b) {
                    (seen, Seq::empty())
                } else {
                    (seen.insert(b), block_bar(annotations[a as int], thread_lines, shape_virtual_row(shape, b as nat)))
                }
            } else {
                (seen, Seq::empty())
            },
            DocumentRow::CommentInput(_) => (seen, Seq::empty()),
        };
        law_bars_belong_to_shown_comments(annotations, thread_lines, shape, row + 1, end, next_seen);
        let rest = bars_from(annotations, thread_lines, shape, row + 1, end, next_seen);
        assert(r == head + rest);
        assert(bars_mark_rows(annotations, thread_lines, shape, row + 1, end, rest));
        assert forall|k: int| 0 <= k < r.len() implies #[trigger] bar_marked(annotations, thread_lines, shape, row, end, r[k]) by {
            if k < head.len() {
                assert(r[k] == head[k]);
                assert(bar_marks_row(annotations, thread_lines, shape, row, r[k]));
                assert(row <= row && row < end);
            } else {
                assert(r[k] == rest[k - head.len()]);
                assert(bar_marked(annotations, thread_lines, shape, row + 1, end, rest[k - head.len()]));
                let v = choose|v: nat| row + 1 <= v < end && #[trigger] bar_marks_row(
                    annotations,
                    thread_lines,
                    shape,
                    v,
                    rest[k - head.len()],
                );
                assert(bar_marks_row(annotations, thread_lines, shape, v, r[k]));
                assert(row <= v && v < end);
            }
        }
        assert(bars_mark_rows(annotations, thread_lines, shape, row, end, r));
    } else {
        assert(bars_from(annotations, thread_lines, shape, row, end, seen).len() == 0);
    }
}

/// The widest row is as wide as one of the rows and at least as wide as
/// each; with no rows it is 0. The horizontal scroll kept is 0 while
/// wrapping, never past the point where the widest row's end reaches the
/// viewport's right edge, and otherwise the scroll asked for.
pub proof fn law_widest_row_and_horizontal_scroll(widths: Seq<usize>, scroll_x: nat, viewport_width: nat, wrap: bool)
    ensures
        forall|i: int| 0 <= i < widths.len() ==> #[trigger] widths[i] <= max_width(widths),
        widths.len() > 0 ==> exists|i: int| 0 <= i < widths.len() && #[trigger] widths[i] == max_width(widths),
        widths.len() == 0 ==> max_width(widths) == 0,
        wrap ==> scroll_x_spec(scroll_x, max_width(widths), viewport_width, wrap) == 0,
        !wrap ==> scroll_x_spec(scroll_x, max_width(widths), viewport_width, wrap) + viewport_width <= max_width(widths)
            || scroll_x_spec(scroll_x, max_width(widths), viewport_width, wrap) == 0,
        !wrap && scroll_x + viewport_width <= max_width(widths) ==> scroll_x_spec(
            scroll_x,
            max_width(widths),
            viewport_width,
            wrap,
        ) == scroll_x,
        scroll_x_spec(scroll_x, max_width(widths), viewport_width, wrap) <= scroll_x,
    decreases widths.len(),
{
    if widths.len() > 0 {
        law_widest_row_and_horizontal_scroll(widths.drop_last(), scroll_x, viewport_width, wrap);
        assert forall|i: int| 0 <= i < widths.len() implies #[trigger] widths[i] <= max_width(widths) by {
            if i < widths.len() - 1 {
                assert(widths[i] == widths.drop_last()[i]);
            }
        }
        if widths.last() <= max_width(widths.drop_last()) && widths.len() > 1 {
            let i = choose|i: int| 0 <= i < widths.drop_last().len() && #[trigger] widths.drop_last()[i] == max_width(
                widths.drop_last(),
            );
            assert(widths[i] == widths.drop_last()[i]);
        } else if widths.len() == 1 {
            assert(widths.drop_last().len() == 0);
            assert(widths[0] == widths.last());
        } else {
            assert(widths[widths.len() - 1] == widths.last());
        }
    }
}

/// A row's content comes from its comment block when it stands for a
/// comment; in the side-by-side view expanded context lines and
/// side-by-side line pairs have their own renderers; every other existing
/// row is drawn on its own, and a row past the end has no source.
pub proof fn law_row_sources(annotations: Seq<AnnotatedLine>, idx: int, side_by_side: bool)
    ensures
        (idx < 0 || idx >= annotations.len()) ==> row_source_spec(annotations, idx, side_by_side) == RowSource::Missing,
        0 <= idx < annotations.len() && is_comment_row(annotations[idx]) ==> row_source_spec(
            annotations,
            idx,
            side_by_side,
        ) is CommentBlock,
        0 <= idx < annotations.len() && !is_comment_row(annotations[idx]) && !side_by_side ==> row_source_spec(
            annotations,
            idx,
            side_by_side,
        ) == RowSource::Simple,
        0 <= idx < annotations.len() && side_by_side && (annotations[idx] matches AnnotatedLine::ExpandedContext {
            gap_id,
            line_idx,
        }) ==> row_source_spec(annotations, idx, side_by_side) == (RowSource::SideBySideExpanded {
            gap_id: annotations[idx]->ExpandedContext_gap_id,
            line_idx: annotations[idx]->ExpandedContext_line_idx,
        }),
        0 <= idx < annotations.len() && side_by_side && annotations[idx] is SideBySideLine ==> row_source_spec(
            annotations,
            idx,
            side_by_side,
        ) == RowSource::SideBySideLine,
{
    if 0 <= idx < annotations.len() {
        law_same_block_means_same_comment(annotations[idx], annotations[idx]);
    }
}

/// The screen offset of a logical row is the total height of the rows
/// before it: the first row is at offset 0, and each row starts where the
/// one before it ends.
pub proof fn law_visual_offsets_add_heights(heights: Seq<usize>, n: int)
    ensures
        sum_prefix(heights, 0) == 0,
        0 < n <= heights.len() ==> sum_prefix(heights, n) == sum_prefix(heights, n - 1) + heights[n - 1],
        n > heights.len() ==> sum_prefix(heights, n) == sum_prefix(heights, heights.len() as int),
{
}

} // verus!
