use tuicr_view::text::{spans_fit_within, StyledLine, StyledSpan};
use tuicr_view::word_wrap::{
    expand_wrapped_lines, slice_spans_by_chars, split_spans_at_width, WrapStyles,
};

fn span(text: &str, style: u8) -> StyledSpan<u8> {
    StyledSpan { content: text.to_string(), style }
}

fn texts(spans: &[StyledSpan<u8>]) -> Vec<(String, u8)> {
    spans.iter().map(|s| (s.content.clone(), s.style)).collect()
}

fn line_text(line: &StyledLine<u8>) -> String {
    line.spans.iter().map(|s| s.content.as_str()).collect()
}

const STYLES: WrapStyles<u8> = WrapStyles { indicator: 90, dim: 91, plain: 92 };

#[test]
fn display_widths_count_wide_characters_twice() {
    assert!(spans_fit_within(&vec![span("abc", 0)], 3));
    assert!(!spans_fit_within(&vec![span("abc", 0)], 2));
    assert!(spans_fit_within(&vec![span("世界", 0)], 4));
    assert!(!spans_fit_within(&vec![span("世", 0), span("界", 1)], 3));
    assert!(spans_fit_within(&Vec::<StyledSpan<u8>>::new(), 0));
}

#[test]
fn split_keeps_whole_spans_and_cuts_the_straddling_one() {
    let spans = vec![span("ab", 0), span("世c", 1), span("z", 2)];
    let (left, right) = split_spans_at_width(&spans, 3);
    // '世' is two columns wide and does not fit the one column left; 'c' does.
    assert_eq!(texts(&left), vec![("ab".to_string(), 0), ("c".to_string(), 1)]);
    assert_eq!(texts(&right), vec![("世".to_string(), 1), ("z".to_string(), 2)]);
}

#[test]
fn split_at_zero_puts_everything_right() {
    let spans = vec![span("ab", 0), span("cd", 1)];
    let (left, right) = split_spans_at_width(&spans, 0);
    assert!(left.is_empty());
    assert_eq!(texts(&right), vec![("ab".to_string(), 0), ("cd".to_string(), 1)]);
}

#[test]
fn slice_cuts_character_ranges_across_spans() {
    let spans = vec![span("abc", 0), span("", 3), span("déf", 1), span("gh", 2)];
    let sliced = slice_spans_by_chars(&spans, 2, 5);
    assert_eq!(texts(&sliced), vec![("c".to_string(), 0), ("dé".to_string(), 1)]);
    let all = slice_spans_by_chars(&spans, 0, 100);
    assert_eq!(texts(&all), vec![
        ("abc".to_string(), 0),
        ("déf".to_string(), 1),
        ("gh".to_string(), 2),
    ]);
    assert!(slice_spans_by_chars(&spans, 4, 4).is_empty());
}

fn gutter_line(content: &str) -> StyledLine<u8> {
    StyledLine { spans: vec![span(" ", 1), span("1", 2), span("+ ", 3), span(content, 4)] }
}

#[test]
fn rows_that_fit_are_kept() {
    let lines = vec![gutter_line("abcdef")];
    let out = expand_wrapped_lines(lines, 4, 10, STYLES);
    assert_eq!(out.len(), 1);
    assert_eq!(line_text(&out[0]), " 1+ abcdef");
}

#[test]
fn long_rows_wrap_with_continuation_gutters() {
    let lines = vec![gutter_line("abcdefghijklmn"), gutter_line("x")];
    let out = expand_wrapped_lines(lines, 4, 10, STYLES);
    assert_eq!(out.len(), 4);
    assert_eq!(texts(&out[0].spans), vec![
        (" ".to_string(), 1),
        ("1".to_string(), 2),
        ("+ ".to_string(), 3),
        ("abcdef".to_string(), 4),
    ]);
    assert_eq!(texts(&out[1].spans), vec![
        (" ".to_string(), 90),
        ("↪".to_string(), 91),
        ("+ ".to_string(), 3),
        ("ghijkl".to_string(), 4),
    ]);
    assert_eq!(line_text(&out[2]), " ↪+ mn");
    assert_eq!(line_text(&out[3]), " 1+ x");
}

#[test]
fn continuation_gutter_pads_the_line_number_column() {
    let line = StyledLine { spans: vec![span(" ", 1), span("12", 2), span("+ ", 3), span("abcdefgh", 4)] };
    let out = expand_wrapped_lines(vec![line], 6, 10, STYLES);
    assert_eq!(out.len(), 2);
    assert_eq!(texts(&out[1].spans)[1], ("  ↪".to_string(), 91));
}

#[test]
fn missing_marker_is_replaced_by_plain_blanks() {
    let line = StyledLine { spans: vec![span(" 1", 1), span("abcdefgh", 4)] };
    let out = expand_wrapped_lines(vec![line], 2, 6, STYLES);
    assert_eq!(out.len(), 2);
    assert_eq!(texts(&out[1].spans), vec![
        (" ".to_string(), 90),
        ("↪".to_string(), 91),
        ("  ".to_string(), 92),
        ("efgh".to_string(), 4),
    ]);
}

#[test]
fn wide_character_that_never_fits_gets_its_own_row() {
    let line = StyledLine { spans: vec![span("|", 1), span("世a", 4)] };
    let out = expand_wrapped_lines(vec![line], 1, 2, STYLES);
    assert_eq!(out.len(), 2);
    assert_eq!(line_text(&out[0]), "|世");
    assert_eq!(texts(&out[1].spans)[3], ("a".to_string(), 4));
}

#[test]
fn no_content_columns_leaves_rows_untouched() {
    let lines = vec![gutter_line("abcdefghijklmn")];
    let out = expand_wrapped_lines(lines, 4, 4, STYLES);
    assert_eq!(out.len(), 1);
    assert_eq!(line_text(&out[0]), " 1+ abcdefghijklmn");
}

#[test]
fn wrapped_rows_keep_each_character_with_its_style() {
    let line = StyledLine {
        spans: vec![span(" ", 1), span("1", 2), span("+ ", 3), span("abcd", 4), span("efgh", 5), span("ij", 6)],
    };
    let out = expand_wrapped_lines(vec![line], 4, 7, STYLES);
    assert_eq!(out.len(), 4);
    let mut styled: Vec<(char, u8)> = Vec::new();
    for (k, row) in out.iter().enumerate() {
        let skip = 3;
        for s in &row.spans[skip..] {
            styled.extend(s.content.chars().map(|c| (c, s.style)));
        }
    }
    let expected: Vec<(char, u8)> =
        "abcd".chars().map(|c| (c, 4)).chain("efgh".chars().map(|c| (c, 5))).chain("ij".chars().map(|c| (c, 6))).collect();
    assert_eq!(styled, expected);
}
