use tuicr_view::markdown::{MdBase, MdStyle};
use tuicr_view::modes::{DiffSource, PullRequestDetails, ScrollState};
use tuicr_view::pr_details::{
    centered_rect, details_layout, pr_details_lines, pr_details_popup_area, Area, DetailsStyle,
};
use tuicr_view::text::StyledLine;

fn plain(lines: &[StyledLine<DetailsStyle>]) -> Vec<String> {
    lines.iter().map(|l| l.spans.iter().map(|s| s.content.as_str()).collect()).collect()
}

fn pr(author: Option<&str>, body: &str) -> PullRequestDetails {
    PullRequestDetails {
        repository: "agavra/tuicr".to_string(),
        number: 125,
        title: "test pr".to_string(),
        url: "https://example.com".to_string(),
        author: author.map(|a| a.to_string()),
        state: "OPEN".to_string(),
        head_ref_name: "feat".to_string(),
        base_ref_name: "main".to_string(),
        short_head: "headsha".to_string(),
        body: body.to_string(),
    }
}

#[test]
fn details_list_the_pull_request_then_its_description() {
    let lines = pr_details_lines(&DiffSource::PullRequest(pr(Some("alice"), "**hi**")));
    assert_eq!(plain(&lines), vec![
        "agavra/tuicr#125: test pr",
        "",
        "URL: https://example.com",
        "Author: alice",
        "State: OPEN",
        "Branches: feat → main",
        "Head: headsha",
        "",
        "Description",
        "",
        "hi",
    ]);
    assert_eq!(lines[0].spans[0].style, DetailsStyle::Title);
    assert_eq!(lines[2].spans[0].style, DetailsStyle::Label);
    assert_eq!(lines[2].spans[1].style, DetailsStyle::Value);
    assert_eq!(lines[8].spans[0].style, DetailsStyle::Section);
    match lines[10].spans[0].style {
        DetailsStyle::Markdown(MdStyle { base: MdBase::Inline(flags), heading: None }) => assert!(flags.bold),
        other => panic!("unexpected style {:?}", other),
    }
}

#[test]
fn details_of_unknown_author_and_empty_body() {
    let lines = pr_details_lines(&DiffSource::PullRequest(pr(None, "")));
    let text = plain(&lines);
    assert_eq!(text[3], "Author: unknown");
    assert_eq!(text.last().unwrap(), "No description provided.");
}

#[test]
fn details_without_pull_request() {
    let lines = pr_details_lines(&DiffSource::WorkingTree);
    assert_eq!(plain(&lines), vec!["No pull request is open."]);
    assert_eq!(lines[0].spans[0].style, DetailsStyle::Dim);
}

#[test]
fn layout_clamps_the_offset_and_sets_indicators() {
    let lines = pr_details_lines(&DiffSource::PullRequest(pr(Some("alice"), "body")));
    let mut state = ScrollState { scroll_offset: 100, total_lines: 0, viewport_height: 0 };
    let (up, down) = details_layout(&lines, 80, 5, &mut state);
    assert_eq!(state.total_lines, 11);
    assert_eq!(state.viewport_height, 5);
    assert_eq!(state.scroll_offset, 6);
    assert!(up);
    assert!(!down);
    state.scroll_offset = 0;
    let (up, down) = details_layout(&lines, 80, 5, &mut state);
    assert!(!up);
    assert!(down);
    let (up, down) = details_layout(&lines, 0, 5, &mut state);
    assert_eq!(state.total_lines, 1);
    assert!(!up && !down);
}

#[test]
fn long_lines_wrap_in_the_layout() {
    let lines = pr_details_lines(&DiffSource::PullRequest(pr(Some("alice"), "")));
    let mut state = ScrollState { scroll_offset: 0, total_lines: 0, viewport_height: 0 };
    details_layout(&lines, 10, 50, &mut state);
    assert!(state.total_lines > 11);
}

#[test]
fn popup_is_centred_over_the_diff() {
    let frame = Area { x: 0, y: 0, width: 200, height: 100 };
    let diff = Area { x: 10, y: 5, width: 100, height: 40 };
    let a = pr_details_popup_area(Some(diff), frame);
    assert_eq!((a.width, a.height), (85, 36));
    assert!(a.x >= 17 && a.x <= 18);
    assert!(a.y >= 7 && a.y <= 8);
    let b = pr_details_popup_area(None, frame);
    assert_eq!((b.width, b.height), (170, 90));
    let c = centered_rect(50, 50, frame);
    assert_eq!((c.x, c.y, c.width, c.height), (50, 25, 100, 50));
}
