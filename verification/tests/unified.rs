use tuicr_view::side_by_side::LineOrigin;
use tuicr_view::text::StyledSpan;
use tuicr_view::unified::{simple_row_spans, unified_row_spans, EolStyle, RowFacts, RowStyles, UnifiedStyles};
use tuicr_view::viewport::{AnnotatedLine, GapId};

fn span(text: &str, style: u8) -> StyledSpan<u8> {
    StyledSpan { content: text.to_string(), style }
}

fn texts(spans: &[StyledSpan<u8>]) -> Vec<(String, u8)> {
    spans.iter().map(|s| (s.content.clone(), s.style)).collect()
}

fn pairs(items: &[(&str, u8)]) -> Vec<(String, u8)> {
    items.iter().map(|(t, s)| (t.to_string(), *s)).collect()
}

const ST: UnifiedStyles<u8> = UnifiedStyles { indicator: 1, dim: 2, addition: 3, deletion: 4, context: 5 };

#[test]
fn unified_rows_hold_gutter_and_content() {
    let (spans, eol) = unified_row_spans("▶", LineOrigin::Addition, false, "  3 ", 3, "+", None, "let x", &ST);
    assert_eq!(texts(&spans), pairs(&[("▶", 1), ("  3 ", 2), ("+ ", 3), ("let x", 3)]));
    assert_eq!(eol, Some(EolStyle { base: 3, syntax_background: false }));
}

#[test]
fn commit_message_rows_have_a_blank_gutter() {
    let (spans, eol) = unified_row_spans(" ", LineOrigin::Context, true, "  9 ", 3, " ", None, "Fix", &ST);
    assert_eq!(texts(&spans), pairs(&[(" ", 1), ("    ", 2), ("  ", 5), ("Fix", 5)]));
    assert_eq!(eol, None);
}

#[test]
fn highlighted_deletions_fill_with_the_syntax_background() {
    let pieces = vec![(7u8, "fn".to_string()), (8u8, " f".to_string())];
    let (spans, eol) = unified_row_spans(" ", LineOrigin::Deletion, false, "1 ", 1, "-", Some(&pieces), "fn f", &ST);
    assert_eq!(texts(&spans), pairs(&[(" ", 1), ("1 ", 2), ("- ", 4), ("fn", 7), (" f", 8)]));
    assert_eq!(eol, Some(EolStyle { base: 8, syntax_background: true }));
}

const RS: RowStyles<u8> = RowStyles { indicator: 1, file_header: 2, secondary: 3, dim: 4, expanded: 5 };

fn facts() -> RowFacts<u8> {
    RowFacts {
        indicator: "▶".to_string(),
        indicator_spaced: "▶ ".to_string(),
        review_header_prefix: "═══ Review ".to_string(),
        header_rule: "═══".to_string(),
        pr_number: Some(12),
        file_header: Some("═══ src/a.rs ".to_string()),
        banner: "reviewed".to_string(),
        expander_body: "↓ 4 more".to_string(),
        hidden_body: "4 hidden".to_string(),
        expanded: Some((" 40 ".to_string(), "ctx".to_string())),
        hunk_header: Some(("@@ -1 +1 @@".to_string(), 9)),
        diff_row: Some(vec![span("x", 6)]),
        binary_label: None,
        next_file_hint: None,
    }
}

#[test]
fn headers_and_banners() {
    let f = facts();
    assert_eq!(
        texts(&simple_row_spans(&AnnotatedLine::IssueCommentsHeader, &f, &RS)),
        pairs(&[("▶ ", 1), ("═══ PR #12 Comments ", 2), ("═══", 2)])
    );
    assert_eq!(
        texts(&simple_row_spans(&AnnotatedLine::FileHeader { file_idx: 0 }, &f, &RS)),
        pairs(&[("▶ ", 1), ("═══ src/a.rs ", 2), ("═══", 2)])
    );
    assert_eq!(
        texts(&simple_row_spans(&AnnotatedLine::ReviewedBanner { file_idx: 0 }, &f, &RS)),
        pairs(&[("▶", 1), ("reviewed", 3)])
    );
    let gap = GapId { file_idx: 0, hunk_idx: 1 };
    assert_eq!(
        texts(&simple_row_spans(&AnnotatedLine::Expander { gap_id: gap }, &f, &RS)),
        pairs(&[("▶ ", 1), ("↓ 4 more", 4)])
    );
}

#[test]
fn lines_and_missing_sources() {
    let f = facts();
    let gap = GapId { file_idx: 0, hunk_idx: 1 };
    assert_eq!(
        texts(&simple_row_spans(&AnnotatedLine::ExpandedContext { gap_id: gap, line_idx: 0 }, &f, &RS)),
        pairs(&[("▶", 1), (" 40 ", 5), ("  ", 5), ("ctx", 5)])
    );
    assert_eq!(
        texts(&simple_row_spans(&AnnotatedLine::HunkHeader { file_idx: 0, hunk_idx: 0 }, &f, &RS)),
        pairs(&[("▶ ", 1), ("@@ -1 +1 @@", 9)])
    );
    assert_eq!(
        texts(&simple_row_spans(&AnnotatedLine::DiffLine { file_idx: 0, hunk_idx: 0, line_idx: 0 }, &f, &RS)),
        pairs(&[("x", 6)])
    );
    assert!(simple_row_spans(&AnnotatedLine::BinaryOrEmpty { file_idx: 0 }, &f, &RS).is_empty());
    assert!(simple_row_spans(&AnnotatedLine::PrInfoLine, &f, &RS).is_empty());
    assert_eq!(texts(&simple_row_spans(&AnnotatedLine::Spacing, &f, &RS)), pairs(&[("▶", 1)]));
    let mut g = facts();
    g.next_file_hint = Some("next: b.rs".to_string());
    assert_eq!(texts(&simple_row_spans(&AnnotatedLine::Spacing, &g, &RS)), pairs(&[("▶", 1), ("next: b.rs", 3)]));
}
