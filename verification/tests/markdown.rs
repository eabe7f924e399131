use tuicr_view::markdown::{md_look, render_markdown_lines, InlineFlags, MdBase, MdColor, MdLookBase, MdStyle};
use tuicr_view::text::StyledLine;

fn plain_text(lines: &[StyledLine<MdStyle>]) -> String {
    lines
        .iter()
        .map(|line| {
            line.spans
                .iter()
                .map(|span| span.content.as_str())
                .collect::<String>()
        })
        .collect::<Vec<_>>()
        .join("\n")
}

#[test]
fn renders_common_markdown_without_raw_delimiters() {
    let lines = render_markdown_lines(
        "## Summary\n\n- **Fixes** `panic`\n- [docs](https://example.test)\n\n> quoted",
    );
    let text = plain_text(&lines);

    assert!(text.contains("Summary"));
    assert!(text.contains("• Fixes panic"));
    assert!(text.contains("docs (https://example.test)"));
    assert!(text.contains("│ quoted"));
    assert!(!text.contains("##"));
    assert!(!text.contains("**"));
    assert!(!text.contains('`'));
    assert!(!text.contains("]("));
}

#[test]
fn renders_empty_markdown_as_placeholder() {
    let lines = render_markdown_lines("   \n");
    let text = plain_text(&lines);

    assert_eq!(text, "No description provided.");
}

#[test]
fn markdown_heading_spans_carry_their_level() {
    let lines = render_markdown_lines("# Title\n\nbody");
    assert_eq!(plain_text(&lines), "Title\n\nbody");
    assert_eq!(lines[0].spans[0].style.heading, Some(1));
    assert_eq!(lines[2].spans[0].style.heading, None);
}

#[test]
fn markdown_ordered_list_numbers_items() {
    let lines = render_markdown_lines("3. one\n4. two\n");
    assert_eq!(plain_text(&lines), "3. one\n4. two");
    assert_eq!(lines[0].spans[0].style.base, MdBase::Dim);
}

#[test]
fn markdown_tight_nested_list_continues_the_item_line() {
    let lines = render_markdown_lines("- a\n  - b\n");
    let text = plain_text(&lines);
    assert_eq!(text, "• ab");
}

#[test]
fn markdown_fenced_code_block_is_labelled_and_indented() {
    let lines = render_markdown_lines("```rust\nfn main() {}\n```\n");
    assert_eq!(plain_text(&lines), "code: rust\n    fn main() {}\n    ");
    assert_eq!(lines[1].spans[0].style.base, MdBase::CodeBlock);
}

#[test]
fn markdown_rule_and_emphasis() {
    let lines = render_markdown_lines("*a* ~~b~~\n\n---\n");
    let text = plain_text(&lines);
    assert_eq!(text, format!("a b\n\n{}", "─".repeat(40)));
    match lines[0].spans[0].style.base {
        MdBase::Inline(flags) => assert!(flags.italic && !flags.bold),
        other => panic!("unexpected style {:?}", other),
    }
}

#[test]
fn markdown_task_list_and_link_without_target() {
    let lines = render_markdown_lines("- [x] done\n- [ ] todo\n\n[bare]()\n");
    let text = plain_text(&lines);
    assert!(text.contains("• ☑ done"));
    assert!(text.contains("• ☐ todo"));
    assert!(text.ends_with("bare"));
}

#[test]
fn markdown_never_has_two_blank_lines_in_a_row() {
    let lines = render_markdown_lines("# A\n\n> q\n\n---\n\npara\n\n\n\n");
    for pair in lines.windows(2) {
        assert!(!(pair[0].spans.is_empty() && pair[1].spans.is_empty()));
    }
    assert!(!lines.last().unwrap().spans.is_empty());
}

#[test]
fn headings_are_bold_and_the_first_two_levels_underlined() {
    let text = MdStyle { base: MdBase::Inline(InlineFlags { bold: false, italic: true, crossed_out: false, link: false }), heading: None };
    let look = md_look(text);
    assert_eq!(look.fg, MdColor::Secondary);
    assert!(look.italic && !look.bold && !look.underlined);
    let h2 = md_look(MdStyle { heading: Some(2), ..text });
    assert_eq!(h2.fg, MdColor::Primary);
    assert!(h2.bold && h2.underlined && h2.italic);
    let h3 = md_look(MdStyle { heading: Some(3), ..text });
    assert!(h3.bold && !h3.underlined);
    let link = md_look(MdStyle { base: MdBase::Inline(InlineFlags { bold: false, italic: false, crossed_out: false, link: true }), heading: None });
    assert_eq!(link.fg, MdColor::Accent);
    assert!(link.underlined);
    let code = md_look(MdStyle { base: MdBase::CodeBlock, heading: None });
    assert_eq!((code.base, code.fg), (MdLookBase::Code, MdColor::Base));
    let dim_in_heading = md_look(MdStyle { base: MdBase::Dim, heading: Some(1) });
    assert_eq!((dim_in_heading.base, dim_in_heading.fg), (MdLookBase::Dim, MdColor::Primary));
    assert!(dim_in_heading.underlined);
}
