use tuicr_view::viewport::{
    annotation_row_source, block_start, calculate_gap, clamp_scroll_x, document_row,
    editor_line_range, expanded_line, gap_remaining, same_block, viewport_rows,
    visible_comment_bars, visual_offset, AnnotatedLine, CommentBar, CommentInput, DocumentRow,
    GapId, HunkSpan, LineRange, LineSide, RowSource, issue_comments_header, virtual_row_of,
    comment_block_source, diff_window, layout_diff_frame, CommentLookup, CommentSource, DiffState,
    FileCommentFacts, LineCommentFacts,
};
use tuicr_view::pr_details::Area;

fn editor(start: usize, rows: usize, replaced: usize) -> CommentInput<u8> {
    CommentInput { start, replaced, lines: vec![0; rows], cursor_line_offset: 0, cursor_column: 1 }
}

#[test]
fn comment_editor_rows_replace_hidden_annotations() {
    let input = editor(3, 2, 1);
    assert_eq!(input.end(), 5);
    assert_eq!(input.total_rows(10), 11);
    assert_eq!(input.total_rows(0), 2);
    assert_eq!(document_row(Some(&input), 2), Some(DocumentRow::Annotation(2)));
    assert_eq!(document_row(Some(&input), 3), Some(DocumentRow::CommentInput(0)));
    assert_eq!(document_row(Some(&input), 4), Some(DocumentRow::CommentInput(1)));
    assert_eq!(document_row(Some(&input), 5), Some(DocumentRow::Annotation(4)));
    assert_eq!(document_row::<u8>(None, 7), Some(DocumentRow::Annotation(7)));
}

#[test]
fn annotation_rows_map_back_to_their_virtual_rows() {
    let input = editor(3, 2, 1);
    for idx in [0usize, 1, 2, 4, 5, 9] {
        let row = virtual_row_of(Some(&input), idx);
        assert_eq!(document_row(Some(&input), row), Some(DocumentRow::Annotation(idx)));
    }
    assert_eq!(virtual_row_of::<u8>(None, 4), 4);
}

fn line_comment(line: u32, idx: usize) -> AnnotatedLine {
    AnnotatedLine::LineComment { file_idx: 0, line, side: LineSide::New, comment_idx: idx }
}

#[test]
fn comment_rows_form_blocks() {
    let rows = vec![
        AnnotatedLine::FileHeader { file_idx: 0 },
        line_comment(2, 0),
        line_comment(2, 0),
        line_comment(2, 0),
        line_comment(2, 1),
        AnnotatedLine::Spacing,
    ];
    assert!(same_block(&rows[1], &rows[2]));
    assert!(!same_block(&rows[3], &rows[4]));
    assert!(!same_block(&rows[5], &rows[5]));
    assert_eq!(block_start(&rows, 3), 1);
    assert_eq!(block_start(&rows, 4), 4);
    assert_eq!(block_start(&rows, 5), 5);
    assert_eq!(block_start(&rows, 9), 9);
    assert_eq!(annotation_row_source(&rows, 3, false), RowSource::CommentBlock { block: 1, offset: 2 });
    assert_eq!(annotation_row_source(&rows, 0, true), RowSource::Simple);
    assert_eq!(annotation_row_source(&rows, 6, true), RowSource::Missing);
}

#[test]
fn side_by_side_rows_have_their_own_sources() {
    let gap = GapId { file_idx: 0, hunk_idx: 1 };
    let rows = vec![
        AnnotatedLine::ExpandedContext { gap_id: gap, line_idx: 3 },
        AnnotatedLine::SideBySideLine { file_idx: 0, hunk_idx: 0, del_line_idx: Some(1), add_line_idx: None },
    ];
    assert_eq!(annotation_row_source(&rows, 0, true), RowSource::SideBySideExpanded { gap_id: gap, line_idx: 3 });
    assert_eq!(annotation_row_source(&rows, 0, false), RowSource::Simple);
    assert_eq!(annotation_row_source(&rows, 1, true), RowSource::SideBySideLine);
}

#[test]
fn comment_bars_appear_once_per_visible_block() {
    let rows = vec![
        line_comment(7, 0),
        line_comment(7, 0),
        AnnotatedLine::Spacing,
        AnnotatedLine::RemoteThreadLine { thread_idx: 0 },
        AnnotatedLine::RemoteThreadLine { thread_idx: 1 },
        line_comment(9, 1),
    ];
    let threads = vec![Some(4), None];
    let bars = visible_comment_bars::<u8>(&rows, &threads, None, None, 1, 5);
    assert_eq!(bars, vec![
        CommentBar { start_row: 0, lines: Some(LineRange { start: 7, end: 7 }) },
        CommentBar { start_row: 3, lines: Some(LineRange { start: 4, end: 4 }) },
    ]);
}

#[test]
fn comment_bars_shift_below_the_editor_and_include_it() {
    let rows = vec![AnnotatedLine::Spacing, line_comment(2, 0), line_comment(3, 1)];
    let input = editor(1, 3, 1);
    let range = Some(LineRange { start: 2, end: 4 });
    let bars = visible_comment_bars(&rows, &Vec::new(), Some(&input), Some(range), 0, 6);
    assert_eq!(bars, vec![
        CommentBar { start_row: 4, lines: Some(LineRange { start: 3, end: 3 }) },
        CommentBar { start_row: 1, lines: range },
    ]);
}

#[test]
fn editor_range_prefers_the_selection() {
    let r = LineRange { start: 3, end: 6 };
    assert_eq!(editor_line_range(false, false, Some(r), Some(9)), Some(r));
    assert_eq!(editor_line_range(false, false, None, Some(9)), Some(LineRange { start: 9, end: 9 }));
    assert_eq!(editor_line_range(true, false, Some(r), Some(9)), None);
    assert_eq!(editor_line_range(false, true, Some(r), None), None);
}

#[test]
fn gaps_between_hunks_and_after_the_last() {
    assert_eq!(calculate_gap(None, 5), 4);
    assert_eq!(calculate_gap(Some(HunkSpan { new_start: 5, new_count: 3 }), 20), 12);
    assert_eq!(calculate_gap(Some(HunkSpan { new_start: 5, new_count: 3 }), 6), 0);
    let hunks = vec![HunkSpan { new_start: 5, new_count: 3 }, HunkSpan { new_start: 20, new_count: 2 }];
    let gap = |hunk_idx| GapId { file_idx: 0, hunk_idx };
    assert_eq!(gap_remaining(Some((&hunks, Some(30))), gap(0), 0, 0), 4);
    assert_eq!(gap_remaining(Some((&hunks, Some(30))), gap(1), 5, 3), 4);
    assert_eq!(gap_remaining(Some((&hunks, Some(30))), gap(1), 10, 10), 0);
    assert_eq!(gap_remaining(Some((&hunks, Some(30))), gap(2), 0, 1), 8);
    assert_eq!(gap_remaining(Some((&hunks, None)), gap(2), 0, 0), 0);
    assert_eq!(gap_remaining(Some((&hunks, Some(30))), gap(3), 0, 0), 0);
    assert_eq!(gap_remaining(None, gap(0), 0, 0), 0);
}

#[test]
fn expanded_lines_come_from_top_then_bottom() {
    let top = vec![10, 11];
    let bottom = vec![20];
    assert_eq!(expanded_line(Some(&top), Some(&bottom), 1), Some(&11));
    assert_eq!(expanded_line(Some(&top), Some(&bottom), 2), Some(&20));
    assert_eq!(expanded_line(Some(&top), Some(&bottom), 3), None);
    assert_eq!(expanded_line(None, Some(&bottom), 0), Some(&20));
    assert_eq!(expanded_line::<u8>(None, None, 0), None);
}

#[test]
fn viewport_window_and_offsets() {
    assert_eq!(viewport_rows(5, 10, 100), (5, 15));
    assert_eq!(viewport_rows(95, 10, 100), (95, 100));
    assert_eq!(viewport_rows(200, 10, 100), (100, 100));
    assert_eq!(viewport_rows(3, usize::MAX, 100), (3, 100));
    assert_eq!(visual_offset(&vec![1, 3, 2], 2), 4);
    assert_eq!(visual_offset(&vec![1, 3, 2], 9), 6);
    assert_eq!(clamp_scroll_x(50, 120, 100, false), 20);
    assert_eq!(clamp_scroll_x(5, 120, 100, false), 5);
    assert_eq!(clamp_scroll_x(5, 80, 100, false), 0);
    assert_eq!(clamp_scroll_x(5, 120, 100, true), 0);
}

#[test]
fn issue_comments_header_names_the_pull_request() {
    assert_eq!(issue_comments_header(Some(42)), "═══ PR #42 Comments ");
    assert_eq!(issue_comments_header(None), "═══ PR #0 Comments ");
}

#[test]
fn gaps_only_bound_the_sums_they_compute() {
    let gap = |hunk_idx| GapId { file_idx: 0, hunk_idx };
    let huge = vec![HunkSpan { new_start: u32::MAX, new_count: 5 }, HunkSpan { new_start: 1, new_count: 5 }];
    assert_eq!(gap_remaining(Some((&huge, Some(u32::MAX))), gap(2), 0, 0), (u32::MAX - 6 + 1) as usize);
    assert_eq!(gap_remaining(Some((&huge, Some(u32::MAX))), gap(0), 0, 0), (u32::MAX - 1) as usize);
    assert_eq!(gap_remaining(Some((&huge, None)), gap(7), 0, 0), 0);
}

fn area(width: u16, height: u16) -> Area {
    Area { x: 1, y: 1, width, height }
}

fn diff_state(scroll_offset: usize, scroll_x: usize, wrap_lines: bool) -> DiffState {
    DiffState { scroll_offset, viewport_height: 0, max_content_width: 0, scroll_x, wrap_lines }
}

#[test]
fn diff_window_covers_only_visible_rows() {
    let mut state = diff_state(8, 0, false);
    let w = diff_window::<u8>(&mut state, 20, None, area(40, 5));
    assert_eq!((w.start, w.end, w.total_rows), (8, 13, 20));
    assert_eq!(w.editor, None);
    assert_eq!(state.viewport_height, 5);
    let input = editor(10, 3, 1);
    let w = diff_window(&mut state, 20, Some(&input), area(40, 50));
    assert_eq!((w.start, w.end, w.total_rows), (8, 22, 22));
    assert_eq!(w.editor, Some((10, 3, 1)));
    let stray = editor(30, 3, 0);
    let w = diff_window(&mut state, 20, Some(&stray), area(40, 5));
    assert_eq!((w.total_rows, w.editor), (20, None));
}

#[test]
fn diff_frame_clamps_horizontal_scroll() {
    let mut state = diff_state(0, 50, false);
    let f = layout_diff_frame::<u8>(&mut state, 3, None, area(30, 10), &vec![10, 45, 20]);
    assert_eq!(f.max_content_width, 45);
    assert_eq!(f.scroll_x, 15);
    assert_eq!((state.scroll_x, state.max_content_width, state.viewport_height), (15, 45, 10));
    assert_eq!((f.window.start, f.window.end), (0, 3));
    let mut wrapped = diff_state(0, 5, true);
    let f = layout_diff_frame::<u8>(&mut wrapped, 3, None, area(30, 10), &vec![100]);
    assert_eq!(f.scroll_x, 0);
    let mut empty = diff_state(4, 5, false);
    let f = layout_diff_frame::<u8>(&mut empty, 0, None, area(30, 10), &Vec::new());
    assert_eq!((f.max_content_width, f.scroll_x, f.window.start, f.window.end), (0, 0, 0, 0));
}

fn lookup() -> CommentLookup {
    CommentLookup {
        pr_issue_comments: Some(2),
        review_comments: 1,
        review_summaries: 0,
        files: vec![
            Some(FileCommentFacts {
                file_comments: 1,
                line_comments: vec![(
                    7,
                    vec![
                        LineCommentFacts { side: None, range: None },
                        LineCommentFacts { side: Some(LineSide::Old), range: Some(LineRange { start: 5, end: 7 }) },
                    ],
                )],
            }),
            None,
        ],
        threads: vec![Some(true), None],
    }
}

#[test]
fn comment_blocks_find_their_sources() {
    let l = lookup();
    assert_eq!(comment_block_source(&AnnotatedLine::PrInfoLine, &l), Some(CommentSource::PrInfo));
    assert_eq!(
        comment_block_source(&AnnotatedLine::IssueComment { comment_idx: 1 }, &l),
        Some(CommentSource::IssueComment { comment_idx: 1 })
    );
    assert_eq!(comment_block_source(&AnnotatedLine::IssueComment { comment_idx: 2 }, &l), None);
    assert_eq!(comment_block_source(&AnnotatedLine::RemoteReviewSummaryLine { summary_idx: 0 }, &l), None);
    assert_eq!(
        comment_block_source(&AnnotatedLine::FileComment { file_idx: 0, comment_idx: 0 }, &l),
        Some(CommentSource::FileComment { file_idx: 0, comment_idx: 0 })
    );
    assert_eq!(comment_block_source(&AnnotatedLine::FileComment { file_idx: 1, comment_idx: 0 }, &l), None);
    assert_eq!(comment_block_source(&AnnotatedLine::Spacing, &l), None);
}

#[test]
fn line_comments_are_filtered_by_side() {
    let l = lookup();
    let lc = |side, comment_idx| AnnotatedLine::LineComment { file_idx: 0, line: 7, side, comment_idx };
    assert_eq!(
        comment_block_source(&lc(LineSide::New, 0), &l),
        Some(CommentSource::LineComment { file_idx: 0, comment_idx: 0, range: LineRange { start: 7, end: 7 } })
    );
    assert_eq!(comment_block_source(&lc(LineSide::Old, 0), &l), None);
    assert_eq!(
        comment_block_source(&lc(LineSide::Old, 1), &l),
        Some(CommentSource::LineComment { file_idx: 0, comment_idx: 1, range: LineRange { start: 5, end: 7 } })
    );
    let other_line = AnnotatedLine::LineComment { file_idx: 0, line: 8, side: LineSide::New, comment_idx: 0 };
    assert_eq!(comment_block_source(&other_line, &l), None);
}

#[test]
fn remote_threads_follow_their_visibility() {
    let l = lookup();
    assert_eq!(
        comment_block_source(&AnnotatedLine::RemoteThreadLine { thread_idx: 0 }, &l),
        Some(CommentSource::RemoteThread { thread_idx: 0, muted: true })
    );
    assert_eq!(comment_block_source(&AnnotatedLine::RemoteThreadLine { thread_idx: 1 }, &l), None);
    assert_eq!(comment_block_source(&AnnotatedLine::RemoteThreadLine { thread_idx: 5 }, &l), None);
}

#[test]
fn document_rows_keep_annotation_order() {
    let input = editor(2, 2, 1);
    let shown: Vec<DocumentRow> = (0..input.total_rows(6)).map(|row| document_row(Some(&input), row).unwrap()).collect();
    assert_eq!(
        shown,
        vec![
            DocumentRow::Annotation(0),
            DocumentRow::Annotation(1),
            DocumentRow::CommentInput(0),
            DocumentRow::CommentInput(1),
            DocumentRow::Annotation(3),
            DocumentRow::Annotation(4),
            DocumentRow::Annotation(5)
        ]
    );
}
