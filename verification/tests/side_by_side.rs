use tuicr_view::side_by_side::{
    add_line_column_spans, changed_row_meta, commit_message_row_spans, context_row_meta,
    unchanged_row_spans, sbs_row, SbsLine, SbsStyles, diff_content_spans, expanded_row_meta, ChangedSide,
    add_empty_column_spans, column_pad_style, display_lineno, lineno_field, pad_spans_to_width,
    sbs_blank_prefixes, sbs_row_kind, sbs_row_prefixes, sbs_wrapped_rows, LineOrigin, PadStyle, SbsRowKind, SideSpec,
};
use tuicr_view::text::StyledSpan;

fn span(text: &str, style: u8) -> StyledSpan<u8> {
    StyledSpan { content: text.to_string(), style }
}

fn texts(spans: &[StyledSpan<u8>]) -> Vec<(String, u8)> {
    spans.iter().map(|s| (s.content.clone(), s.style)).collect()
}

#[test]
fn line_numbers_are_right_aligned() {
    assert_eq!(lineno_field(Some(42), 4), "  42");
    assert_eq!(lineno_field(Some(12345), 3), "12345");
    assert_eq!(lineno_field(Some(0), 1), "0");
    assert_eq!(lineno_field(None, 3), "   ");
}

#[test]
fn relative_numbers_count_from_the_cursor() {
    assert_eq!(display_lineno(Some(40), true, 3, 7), Some(4));
    assert_eq!(display_lineno(Some(40), true, 9, 7), Some(2));
    assert_eq!(display_lineno(Some(40), false, 9, 7), Some(40));
    assert_eq!(display_lineno(None, true, 9, 7), None);
}

#[test]
fn row_prefixes_hold_numbers_and_markers() {
    let left = SideSpec { lineno: Some(7), marker: "▌".to_string(), marker_style: 5 };
    let right = SideSpec { lineno: None, marker: " ".to_string(), marker_style: 6 };
    let (l, r) = sbs_row_prefixes("▶", 1, 2, left, right, 3);
    assert_eq!(texts(&l), vec![("▶".to_string(), 1), ("  7 ".to_string(), 2), ("▌".to_string(), 5)]);
    assert_eq!(texts(&r), vec![(" │ ".to_string(), 2), ("    ".to_string(), 2), (" ".to_string(), 6)]);
}

#[test]
fn blank_prefixes_keep_columns_aligned() {
    let (l, r) = sbs_blank_prefixes(2, 0, 3);
    assert_eq!(texts(&l), vec![("      ".to_string(), 0)]);
    assert_eq!(texts(&r), vec![(" │ ".to_string(), 2), ("     ".to_string(), 0)]);
}

#[test]
fn cells_are_padded_to_their_width() {
    let padded = pad_spans_to_width(vec![span("ab", 1), span("世", 2)], 7, 9);
    assert_eq!(texts(&padded), vec![("ab".to_string(), 1), ("世".to_string(), 2), ("   ".to_string(), 9)]);
    let full = pad_spans_to_width(vec![span("abcd", 1)], 4, 9);
    assert_eq!(texts(&full), vec![("abcd".to_string(), 1)]);
    let wide = pad_spans_to_width(vec![span("abcdef", 1)], 4, 9);
    assert_eq!(texts(&wide), vec![("abcdef".to_string(), 1)]);
    let empty = pad_spans_to_width(Vec::new(), 2, 9);
    assert_eq!(texts(&empty), vec![("  ".to_string(), 9)]);
}

#[test]
fn empty_columns_are_blank() {
    let mut spans = vec![span("x", 1)];
    add_empty_column_spans(&mut spans, 4, 3, 0);
    assert_eq!(texts(&spans), vec![("x".to_string(), 1), ("         ".to_string(), 0)]);
}

#[test]
fn pad_styles_follow_origin_and_highlighting() {
    assert_eq!(column_pad_style(LineOrigin::Context, true), PadStyle::Context);
    assert_eq!(column_pad_style(LineOrigin::Addition, true), PadStyle::AdditionSyntax);
    assert_eq!(column_pad_style(LineOrigin::Addition, false), PadStyle::Addition);
    assert_eq!(column_pad_style(LineOrigin::Deletion, true), PadStyle::DeletionSyntax);
    assert_eq!(column_pad_style(LineOrigin::Deletion, false), PadStyle::Deletion);
}

#[test]
fn side_by_side_row_kinds() {
    assert_eq!(sbs_row_kind(false, false, Some(1), Some(1), Some(LineOrigin::Context), true), SbsRowKind::Missing);
    assert_eq!(sbs_row_kind(true, true, None, Some(0), None, true), SbsRowKind::CommitMessage);
    assert_eq!(sbs_row_kind(true, true, None, None, None, false), SbsRowKind::Missing);
    assert_eq!(sbs_row_kind(true, false, Some(1), Some(1), Some(LineOrigin::Context), true), SbsRowKind::Context);
    assert_eq!(sbs_row_kind(true, false, Some(1), Some(2), Some(LineOrigin::Deletion), true), SbsRowKind::Changed);
    assert_eq!(sbs_row_kind(true, false, None, None, None, false), SbsRowKind::Changed);
}

#[test]
fn wrapped_rows_take_the_taller_column() {
    let left_rows = vec![vec![span("abc", 1)], vec![span("d", 1)], vec![span("e", 1)]];
    let right_rows = vec![vec![span("xy", 2)]];
    let prefixes = (vec![span("1 ", 7)], vec![span("|", 7)]);
    let blanks = (vec![span("  ", 0)], vec![span("|", 0)]);
    let rows = sbs_wrapped_rows(&left_rows, &right_rows, (&prefixes.0, &prefixes.1), (&blanks.0, &blanks.1), 3, 8, 9);
    assert_eq!(rows.len(), 3);
    assert_eq!(
        texts(&rows[0].spans),
        vec![
            ("1 ".to_string(), 7),
            ("abc".to_string(), 1),
            ("|".to_string(), 7),
            ("xy".to_string(), 2),
            (" ".to_string(), 9)
        ]
    );
    assert_eq!(
        texts(&rows[2].spans),
        vec![
            ("  ".to_string(), 0),
            ("e".to_string(), 1),
            ("  ".to_string(), 8),
            ("|".to_string(), 0),
            ("   ".to_string(), 9)
        ]
    );
}

#[test]
fn wrapped_rows_of_empty_columns_keep_one_row() {
    let none: Vec<Vec<StyledSpan<u8>>> = Vec::new();
    let prefixes = (vec![span("1", 7)], vec![span("|", 7)]);
    let rows = sbs_wrapped_rows(&none, &none, (&prefixes.0, &prefixes.1), (&prefixes.0, &prefixes.1), 2, 8, 9);
    assert_eq!(rows.len(), 1);
    assert_eq!(
        texts(&rows[0].spans),
        vec![("1".to_string(), 7), ("  ".to_string(), 8), ("|".to_string(), 7), ("  ".to_string(), 9)]
    );
}

#[test]
fn content_spans_prefer_highlighted_pieces() {
    let pieces = vec![(3u8, "let".to_string()), (4u8, " x".to_string())];
    assert_eq!(texts(&diff_content_spans(Some(&pieces), "let x", 1)), vec![("let".to_string(), 3), (" x".to_string(), 4)]);
    assert_eq!(texts(&diff_content_spans(None, "let x", 1)), vec![("let x".to_string(), 1)]);
}

#[test]
fn changed_row_meta_marks_present_lines() {
    let del = ChangedSide { content: vec![span("old", 5)], lineno: Some(9), line_style: 5, pad_style: 15 };
    let meta = changed_row_meta("▶", 1, 2, 0, Some(del), None, 3);
    assert_eq!(texts(&meta.left_content), vec![("old".to_string(), 5)]);
    assert!(meta.right_content.is_empty());
    assert_eq!(meta.left_pad_style, 15);
    assert_eq!(meta.right_pad_style, 0);
    assert_eq!(texts(&meta.left_prefix), vec![("▶".to_string(), 1), ("  9 ".to_string(), 2), ("▌".to_string(), 5)]);
    assert_eq!(texts(&meta.right_prefix), vec![(" │ ".to_string(), 2), ("    ".to_string(), 2), (" ".to_string(), 0)]);
}

#[test]
fn context_row_meta_repeats_the_line() {
    let meta = context_row_meta(" ", 1, 2, 7, vec![span("same", 7)], Some(4), Some(6), 2);
    assert_eq!(texts(&meta.left_content), texts(&meta.right_content));
    assert_eq!(meta.left_pad_style, 7);
    assert_eq!(texts(&meta.left_prefix), vec![(" ".to_string(), 1), (" 4 ".to_string(), 2), (" ".to_string(), 7)]);
    assert_eq!(texts(&meta.right_prefix), vec![(" │ ".to_string(), 2), (" 6 ".to_string(), 2), (" ".to_string(), 7)]);
}

#[test]
fn expanded_row_meta_styles_its_numbers() {
    let meta = expanded_row_meta(" ", 1, 2, 8, vec![span("ctx", 8)], Some(10), None, 2);
    assert_eq!(texts(&meta.right_content), vec![("ctx".to_string(), 8)]);
    assert_eq!(texts(&meta.left_prefix), vec![(" ".to_string(), 1), ("10 ".to_string(), 8), (" ".to_string(), 8)]);
    assert_eq!(texts(&meta.right_prefix), vec![(" │ ".to_string(), 2), ("   ".to_string(), 8), (" ".to_string(), 8)]);
}

#[test]
fn line_columns_hold_number_marker_and_cell() {
    let mut spans = vec![span("▶", 1)];
    add_line_column_spans(&mut spans, Some(12), 3, 2, 5, vec![span("x  ", 5)]);
    assert_eq!(
        texts(&spans),
        vec![("▶".to_string(), 1), (" 12 ".to_string(), 2), ("▌".to_string(), 5), ("x  ".to_string(), 5)]
    );
    let mut none = Vec::new();
    add_line_column_spans(&mut none, None, 2, 2, 6, Vec::new());
    assert_eq!(texts(&none), vec![("   ".to_string(), 2), ("▌".to_string(), 6)]);
}

#[test]
fn unchanged_rows_repeat_their_cell() {
    let cell = vec![span("ab", 7)];
    let spans = unchanged_row_spans("▶", 1, 2, 2, 7, Some(3), Some(4), 2, &cell);
    assert_eq!(
        texts(&spans),
        vec![
            ("▶".to_string(), 1),
            (" 3 ".to_string(), 2),
            (" ".to_string(), 7),
            ("ab".to_string(), 7),
            (" │ ".to_string(), 2),
            (" 4 ".to_string(), 2),
            (" ".to_string(), 7),
            ("ab".to_string(), 7)
        ]
    );
}

#[test]
fn commit_message_rows_are_indented() {
    let spans = commit_message_row_spans(" ", 1, 7, "Fix the bug");
    assert_eq!(texts(&spans), vec![(" ".to_string(), 1), ("  ".to_string(), 7), ("Fix the bug".to_string(), 7)]);
}

#[test]
fn blank_prefixes_are_as_long_as_row_prefixes() {
    let chars = |spans: &[StyledSpan<u8>]| spans.iter().map(|s| s.content.chars().count()).sum::<usize>();
    let left = SideSpec { lineno: Some(123), marker: "▌".to_string(), marker_style: 5 };
    let right = SideSpec { lineno: None, marker: " ".to_string(), marker_style: 6 };
    let (l, r) = sbs_row_prefixes("▶", 1, 2, left, right, 4);
    let (bl, br) = sbs_blank_prefixes(2, 0, 4);
    assert_eq!(chars(&l), chars(&bl));
    assert_eq!(chars(&r), chars(&br));
}

const SBS: SbsStyles<u8> = SbsStyles { indicator: 1, dim: 2, plain: 0, context: 5, addition: 3, deletion: 4 };

fn sbs_line(origin: LineOrigin, old: Option<u32>, new: Option<u32>, text: &str, cell: &str, pad: u8) -> SbsLine<u8> {
    SbsLine {
        origin,
        old_lineno: old,
        new_lineno: new,
        content: text.to_string(),
        highlighted: None,
        cell: vec![span(cell, 9)],
        pad_style: pad,
    }
}

#[test]
fn sbs_changed_row_has_both_columns() {
    let del = sbs_line(LineOrigin::Deletion, Some(3), None, "old", "old ", 14);
    let (spans, meta) = sbs_row("▶", true, false, Some(0), None, Some(del), None, 4, 1, &SBS);
    assert_eq!(
        texts(&spans),
        vec![
            ("▶".to_string(), 1),
            ("3 ".to_string(), 2),
            ("▌".to_string(), 4),
            ("old ".to_string(), 9),
            (" │ ".to_string(), 2),
            ("       ".to_string(), 0)
        ]
    );
    let meta = meta.unwrap();
    assert_eq!(texts(&meta.left_content), vec![("old".to_string(), 4)]);
    assert!(meta.right_content.is_empty());
    assert_eq!((meta.left_pad_style, meta.right_pad_style), (14, 0));
}

#[test]
fn sbs_context_and_commit_rows() {
    let ctx = sbs_line(LineOrigin::Context, Some(2), Some(3), "same", "same", 5);
    let (spans, meta) = sbs_row(" ", true, false, Some(1), Some(1), Some(ctx), None, 4, 1, &SBS);
    assert_eq!(
        texts(&spans),
        vec![
            (" ".to_string(), 1),
            ("2 ".to_string(), 2),
            (" ".to_string(), 5),
            ("same".to_string(), 9),
            (" │ ".to_string(), 2),
            ("3 ".to_string(), 2),
            (" ".to_string(), 5),
            ("same".to_string(), 9)
        ]
    );
    let meta = meta.unwrap();
    assert_eq!(texts(&meta.right_content), vec![("same".to_string(), 5)]);
    let msg = sbs_line(LineOrigin::Context, None, Some(1), "Subject", "", 5);
    let (spans, meta) = sbs_row(" ", true, true, None, Some(0), None, Some(msg), 4, 1, &SBS);
    assert_eq!(texts(&spans), vec![(" ".to_string(), 1), ("  ".to_string(), 5), ("Subject".to_string(), 5)]);
    assert!(meta.is_none());
    let (spans, meta) = sbs_row::<u8>(" ", false, false, None, None, None, None, 4, 1, &SBS);
    assert!(spans.is_empty() && meta.is_none());
}
