//! The pull-request details popup: its lines, and the scroll position and
//! "more" indicators after it is laid out in the popup.

use vstd::prelude::*;
use crate::markdown::{render_markdown_lines, render_events_spec, cmark_events, MdStyle};
use crate::modes::{max_scroll_offset, DiffSource, PullRequestDetails, ScrollState};
use crate::text::{push_decimal, decimal, lines_view, spans_text, spans_view, SpanView, StyledLine, StyledSpan};

verus! {

/// What a span of the details popup shows.
#[derive(Clone, Copy, Debug, PartialEq, Eq, Structural)]
pub enum DetailsStyle {
    Title,
    Label,
    Value,
    Section,
    Dim,
    Markdown(MdStyle),
}

pub open spec fn sv(text: Seq<char>, style: DetailsStyle) -> SpanView<DetailsStyle> {
    SpanView { text: text, style: style }
}

/// A "label: value" line.
pub open spec fn detail_line_spec(label: Seq<char>, value: Seq<char>) -> Seq<SpanView<DetailsStyle>> {
    seq![sv(label + ": "@, DetailsStyle::Label), sv(value, DetailsStyle::Value)]
}

/// The rendered description with its styles marked as Markdown styles.
pub open spec fn markdown_part(lines: Seq<Seq<SpanView<MdStyle>>>) -> Seq<Seq<SpanView<DetailsStyle>>> {
    lines.map_values(
        |l: Seq<SpanView<MdStyle>>|
            l.map_values(|s: SpanView<MdStyle>| sv(s.text, DetailsStyle::Markdown(s.style))),
    )
}

/// The lines of the popup for a pull request.
pub open spec fn pr_lines_spec(pr: PullRequestDetails) -> Seq<Seq<SpanView<DetailsStyle>>> {
    seq![
        seq![sv(pr.repository@ + "#"@ + decimal(pr.number as nat) + ": "@ + pr.title@, DetailsStyle::Title)],
        Seq::empty(),
        detail_line_spec("URL"@, pr.url@),
        detail_line_spec(
            "Author"@,
            match pr.author {
                Some(a) => a@,
                None => "unknown"@,
            },
        ),
        detail_line_spec("State"@, pr.state@),
        detail_line_spec("Branches"@, pr.head_ref_name@ + " → "@ + pr.base_ref_name@),
        detail_line_spec("Head"@, pr.short_head@),
        Seq::empty(),
        seq![sv("Description"@, DetailsStyle::Section)],
        Seq::empty(),
    ] + markdown_part(render_events_spec(cmark_events(pr.body@)))
}

/// The lines of the popup: the pull request's details and description, or
/// a note that no pull request is open.
pub open spec fn pr_details_spec(source: DiffSource) -> Seq<Seq<SpanView<DetailsStyle>>> {
    match source {
        DiffSource::PullRequest(pr) => pr_lines_spec(pr),
        _ => seq![seq![sv("No pull request is open."@, DetailsStyle::Dim)]],
    }
}

fn one_span_line(text: String, style: DetailsStyle) -> (r: StyledLine<DetailsStyle>)
    ensures
        r@ == seq![sv(text@, style)],
{
    let mut spans: Vec<StyledSpan<DetailsStyle>> = Vec::new();
    spans.push(StyledSpan { content: text, style });
    let r = StyledLine { spans };
    proof {
        assert(r@ =~= seq![sv(text@, style)]);
    }
    r
}

fn empty_line() -> (r: StyledLine<DetailsStyle>)
    ensures
        r@ == Seq::<SpanView<DetailsStyle>>::empty(),
{
    let r = StyledLine { spans: Vec::new() };
    proof {
        assert(r@ =~= Seq::<SpanView<DetailsStyle>>::empty());
    }
    r
}

/// A "label: value" line.
fn detail_line(label: &str, value: &str) -> (r: StyledLine<DetailsStyle>)
    ensures
        r@ == detail_line_spec(label@, value@),
{
    let mut label_text = String::from_str(label);
    label_text.append(": ");
    let mut spans: Vec<StyledSpan<DetailsStyle>> = Vec::new();
    spans.push(StyledSpan { content: label_text, style: DetailsStyle::Label });
    spans.push(StyledSpan { content: String::from_str(value), style: DetailsStyle::Value });
    let r = StyledLine { spans };
    proof {
        assert(r@ =~= detail_line_spec(label@, value@));
    }
    r
}

/// Appends the rendered description to `lines`.
fn push_markdown(lines: &mut Vec<StyledLine<DetailsStyle>>, md: Vec<StyledLine<MdStyle>>)
    ensures
        lines_view(final(lines)@) == lines_view(old(lines)@) + markdown_part(lines_view(md@)),
{
    let ghost base = lines_view(lines@);
    let ghost mdv = lines_view(md@);
    for i in 0..md.len()
        invariant
            mdv == lines_view(md@),
            lines_view(lines@) == base + markdown_part(mdv.take(i as int)),
    {
        let src = &md[i];
        let mut spans: Vec<StyledSpan<DetailsStyle>> = Vec::new();
        for j in 0..src.spans.len()
            invariant
                spans@.len() == j,
                forall|k: int|
                    0 <= k < j ==> #[trigger] spans_view(spans@)[k] == sv(
                        src.spans@[k].content@,
                        DetailsStyle::Markdown(src.spans@[k].style),
                    ),
        {
            let sp = &src.spans[j];
            let ghost before = spans_view(spans@);
            spans.push(StyledSpan { content: sp.content.clone(), style: DetailsStyle::Markdown(sp.style) });
            proof {
                assert(spans_view(spans@) =~= before.push(sv(sp.content@, DetailsStyle::Markdown(sp.style))));
            }
        }
        let line = StyledLine { spans };
        proof {
            assert(mdv[i as int] == src@);
            assert(line@ =~= src@.map_values(|s: SpanView<MdStyle>| sv(s.text, DetailsStyle::Markdown(s.style))));
        }
        let ghost before = lines_view(lines@);
        lines.push(line);
        proof {
            assert(lines_view(lines@) =~= before.push(line@));
            assert(markdown_part(mdv.take(i + 1)) =~= markdown_part(mdv.take(i as int)).push(line@));
            assert(lines_view(lines@) =~= base + markdown_part(mdv.take(i + 1)));
        }
    }
    proof {
        assert(mdv.take(md@.len() as int) =~= mdv);
    }
}

/// The lines of the PR details popup.
pub fn pr_details_lines(source: &DiffSource) -> (r: Vec<StyledLine<DetailsStyle>>)
    ensures
        lines_view(r@) == pr_details_spec(*source),
{
    let pr = match source {
        DiffSource::PullRequest(pr) => pr,
        _ => {
            let mut lines: Vec<StyledLine<DetailsStyle>> = Vec::new();
            lines.push(one_span_line(String::from_str("No pull request is open."), DetailsStyle::Dim));
            proof {
                assert(lines_view(lines@) =~= pr_details_spec(*source));
            }
            return lines;
        },
    };
    let mut title = pr.repository.clone();
    title.append("#");
    push_decimal(&mut title, pr.number);
    title.append(": ");
    title.append(pr.title.as_str());
    let author: &str = match &pr.author {
        Some(a) => a.as_str(),
        None => "unknown",
    };
    let mut branches = pr.head_ref_name.clone();
    branches.append(" → ");
    branches.append(pr.base_ref_name.as_str());
    let mut lines: Vec<StyledLine<DetailsStyle>> = Vec::new();
    lines.push(one_span_line(title, DetailsStyle::Title));
    lines.push(empty_line());
    lines.push(detail_line("URL", pr.url.as_str()));
    lines.push(detail_line("Author", author));
    lines.push(detail_line("State", pr.state.as_str()));
    lines.push(detail_line("Branches", branches.as_str()));
    lines.push(detail_line("Head", pr.short_head.as_str()));
    lines.push(empty_line());
    lines.push(one_span_line(String::from_str("Description"), DetailsStyle::Section));
    lines.push(empty_line());
    let ghost head = lines_view(lines@);
    let md = render_markdown_lines(pr.body.as_str());
    push_markdown(&mut lines, md);
    proof {
        assert(head =~= pr_lines_spec(*pr).take(10));
        assert(lines_view(lines@) =~= pr_details_spec(*source));
    }
    lines
}

/// How many rows `ratatui` needs to show lines made of spans of these
/// characters in a paragraph `width` columns wide that wraps without
/// trimming.
pub uninterp spec fn ratatui_wrapped_line_count(lines: Seq<Seq<Seq<char>>>, width: u16) -> usize;

/// The characters of each span of each line of strings.
pub open spec fn strings_view(lines: Seq<Vec<String>>) -> Seq<Seq<Seq<char>>> {
    lines.map_values(|l: Vec<String>| l@.map_values(|s: String| s@))
}

/// Calls `ratatui::widgets::Paragraph::line_count` on a paragraph of lines
/// made of unstyled spans with the given texts, wrapping without trimming.
/// The count depends on the text and the width alone (styles do not take
/// part in wrapping), so it is named [`ratatui_wrapped_line_count`]; the
/// source shows it is zero for a zero width.
#[verifier::external_body]
fn wrapped_line_count(lines: &Vec<Vec<String>>, width: u16) -> (r: usize)
    ensures
        r == ratatui_wrapped_line_count(strings_view(lines@), width),
        width == 0 ==> r == 0,
{
    let text: Vec<ratatui::text::Line> = lines.iter().map(|l| ratatui::text::Line::from(
        l.iter().map(|s| ratatui::text::Span::raw(s.as_str())).collect::<Vec<_>>(),
    )).collect();
    ratatui::widgets::Paragraph::new(text).wrap(ratatui::widgets::Wrap { trim: false }).line_count(width)
}

/// The characters of each span of each line.
pub open spec fn line_texts<S>(lines: Seq<Seq<SpanView<S>>>) -> Seq<Seq<Seq<char>>> {
    lines.map_values(|l: Seq<SpanView<S>>| l.map_values(|sp: SpanView<S>| sp.text))
}

/// The rows the popup's content takes: at least one, and exactly one when
/// the popup has no width.
pub open spec fn details_total_lines(texts: Seq<Seq<Seq<char>>>, width: u16) -> usize {
    if width == 0 {
        1
    } else {
        let n = ratatui_wrapped_line_count(texts, width);
        if n > 1 {
            n
        } else {
            1
        }
    }
}

/// The details scroll state after the popup is laid out: the content's
/// height and the viewport's height recorded, and the offset kept within
/// the last full page.
pub open spec fn details_layout_spec(s: ScrollState, total: usize, height: usize) -> ScrollState {
    let t = ScrollState { scroll_offset: s.scroll_offset, total_lines: total, viewport_height: height };
    ScrollState {
        scroll_offset: if s.scroll_offset < max_scroll_offset(t) {
            s.scroll_offset
        } else {
            max_scroll_offset(t)
        },
        ..t
    }
}

/// Lays the popup's lines out in an area `width` by `height`: records the
/// content and viewport heights in `state`, keeps the offset on the last
/// full page, and says whether there is more to see above and below.
pub fn details_layout<S>(lines: &Vec<StyledLine<S>>, width: u16, height: u16, state: &mut ScrollState) -> (r: (
    bool,
    bool,
))
    ensures
        *final(state) == details_layout_spec(
            *old(state),
            details_total_lines(line_texts(lines_view(lines@)), width),
            height as usize,
        ),
        r.0 == (final(state).scroll_offset > 0),
        r.1 == (final(state).scroll_offset + final(state).viewport_height < final(state).total_lines),
{
    let mut texts: Vec<Vec<String>> = Vec::new();
    for i in 0..lines.len()
        invariant
            strings_view(texts@) == line_texts(lines_view(lines@)).take(i as int),
    {
        let line = &lines[i];
        let ghost lv = line@;
        let mut parts: Vec<String> = Vec::new();
        for j in 0..line.spans.len()
            invariant
                lv == line@,
                parts@.map_values(|s: String| s@) == lv.take(j as int).map_values(|sp: SpanView<S>| sp.text),
        {
            let ghost before = parts@.map_values(|s: String| s@);
            parts.push(line.spans[j].content.clone());
            proof {
                assert(parts@.map_values(|s: String| s@) =~= before.push(lv[j as int].text));
                assert(lv.take(j + 1).map_values(|sp: SpanView<S>| sp.text) =~= lv.take(j as int).map_values(
                    |sp: SpanView<S>| sp.text,
                ).push(lv[j as int].text));
            }
        }
        let ghost part_texts = parts@.map_values(|s: String| s@);
        proof {
            assert(lv.take(line.spans@.len() as int) =~= lv);
        }
        let ghost before = strings_view(texts@);
        texts.push(parts);
        proof {
            assert(strings_view(texts@) =~= before.push(part_texts));
            assert(line_texts(lines_view(lines@)).take(i + 1) =~= line_texts(lines_view(lines@)).take(i as int).push(
                lv.map_values(|sp: SpanView<S>| sp.text),
            ));
        }
    }
    proof {
        assert(line_texts(lines_view(lines@)).take(lines@.len() as int) =~= line_texts(lines_view(lines@)));
    }
    let total_lines: usize = if width == 0 {
        1
    } else {
        let n = wrapped_line_count(&texts, width);
        if n > 1 {
            n
        } else {
            1
        }
    };
    let viewport_height = height as usize;
    state.total_lines = total_lines;
    state.viewport_height = viewport_height;
    let max_offset = total_lines.saturating_sub(viewport_height);
    if state.scroll_offset > max_offset {
        state.scroll_offset = max_offset;
    }
    let can_scroll_up = state.scroll_offset > 0;
    let can_scroll_down = state.scroll_offset + viewport_height < total_lines;
    (can_scroll_up, can_scroll_down)
}

/// After layout the offset lies within the document; at the top there is
/// nothing more above, and on the last page nothing more below.
pub proof fn law_details_layout_bounds(s: ScrollState, total: usize, height: usize)
    ensures
        details_layout_spec(s, total, height).scroll_offset <= max_scroll_offset(
            details_layout_spec(s, total, height),
        ),
        details_layout_spec(s, total, height).scroll_offset + height >= total <==> details_layout_spec(
            s,
            total,
            height,
        ).scroll_offset == max_scroll_offset(details_layout_spec(s, total, height)),
        s.scroll_offset == 0 ==> details_layout_spec(s, total, height).scroll_offset == 0,
        s.scroll_offset <= max_scroll_offset(details_layout_spec(s, total, height)) ==> details_layout_spec(
            s,
            total,
            height,
        ).scroll_offset == s.scroll_offset,
{
}

/// A rectangle of terminal cells.
#[derive(Clone, Copy, Debug, PartialEq, Eq, Structural)]
pub struct Area {
    pub x: u16,
    pub y: u16,
    pub width: u16,
    pub height: u16,
}

/// The area that a vertical `ratatui` layout with one percentage
/// constraint and centred flex gives inside `area`.
pub uninterp spec fn ratatui_center_vertically(percent: u16, area: Area) -> Area;

/// The area that a horizontal `ratatui` layout with one percentage
/// constraint and centred flex gives inside `area`.
pub uninterp spec fn ratatui_center_horizontally(percent: u16, area: Area) -> Area;

/// Calls `ratatui::layout::Layout::areas` on a vertical layout of one
/// `Constraint::Percentage(percent)` with `Flex::Center`. The layout solver
/// depends on its arguments alone, so the result is named
/// [`ratatui_center_vertically`].
#[verifier::external_body]
fn center_vertically(percent: u16, area: Area) -> (r: Area)
    ensures
        r == ratatui_center_vertically(percent, area),
{
    let rect = ratatui::layout::Rect { x: area.x, y: area.y, width: area.width, height: area.height };
    let layout = ratatui::layout::Layout::vertical([ratatui::layout::Constraint::Percentage(percent)])
        .flex(ratatui::layout::Flex::Center);
    let [out] = layout.areas(rect);
    Area { x: out.x, y: out.y, width: out.width, height: out.height }
}

/// Calls `ratatui::layout::Layout::areas` on a horizontal layout of one
/// `Constraint::Percentage(percent)` with `Flex::Center`; the result is
/// named [`ratatui_center_horizontally`].
#[verifier::external_body]
fn center_horizontally(percent: u16, area: Area) -> (r: Area)
    ensures
        r == ratatui_center_horizontally(percent, area),
{
    let rect = ratatui::layout::Rect { x: area.x, y: area.y, width: area.width, height: area.height };
    let layout = ratatui::layout::Layout::horizontal([ratatui::layout::Constraint::Percentage(percent)])
        .flex(ratatui::layout::Flex::Center);
    let [out] = layout.areas(rect);
    Area { x: out.x, y: out.y, width: out.width, height: out.height }
}

/// The part of `area` that takes `percent_x` of its width and `percent_y`
/// of its height, centred in it.
pub fn centered_rect(percent_x: u16, percent_y: u16, area: Area) -> (r: Area)
    ensures
        r == ratatui_center_horizontally(percent_x, ratatui_center_vertically(percent_y, area)),
{
    let vertical = center_vertically(percent_y, area);
    center_horizontally(percent_x, vertical)
}

/// Where the details popup is drawn: centred over the diff area when there
/// is one, else over the whole frame, taking 85% of its width and 90% of
/// its height.
pub fn pr_details_popup_area(diff_area: Option<Area>, frame_area: Area) -> (r: Area)
    ensures
        r == ratatui_center_horizontally(
            85,
            ratatui_center_vertically(
                90,
                match diff_area {
                    Some(a) => a,
                    None => frame_area,
                },
            ),
        ),
{
    let anchor = match diff_area {
        Some(a) => a,
        None => frame_area,
    };
    centered_rect(85, 90, anchor)
}

/// The details popup of a pull request shows its title line, the URL,
/// author ("unknown" when there is none), state, branches and head, then
/// the description: one line per line of the rendered Markdown, each span
/// with the same text and its Markdown style. Outside a pull request the
/// popup holds only a dimmed note.
pub proof fn law_details_show_the_pull_request(source: DiffSource)
    ensures
        match source {
            DiffSource::PullRequest(pr) => {
                let l = pr_details_spec(source);
                let md = render_events_spec(cmark_events(pr.body@));
                &&& l.len() == 10 + md.len()
                &&& l[0] == seq![sv(pr.repository@ + "#"@ + decimal(pr.number as nat) + ": "@ + pr.title@, DetailsStyle::Title)]
                &&& l[2][1] == sv(pr.url@, DetailsStyle::Value)
                &&& l[3][1].text == match pr.author {
                    Some(a) => a@,
                    None => "unknown"@,
                }
                &&& l[4][1].text == pr.state@
                &&& l[5][1].text == pr.head_ref_name@ + " → "@ + pr.base_ref_name@
                &&& l[6][1].text == pr.short_head@
                &&& l[8] == seq![sv("Description"@, DetailsStyle::Section)]
                &&& forall|i: int, j: int|
                    0 <= i < md.len() && 0 <= j < md[i].len() ==> (#[trigger] l[10 + i][j]).text == md[i][j].text
                        && l[10 + i][j].style == DetailsStyle::Markdown(md[i][j].style)
                &&& forall|i: int| 0 <= i < md.len() ==> (#[trigger] l[10 + i]).len() == md[i].len()
            },
            _ => pr_details_spec(source) == seq![seq![sv("No pull request is open."@, DetailsStyle::Dim)]],
        },
{
    if let DiffSource::PullRequest(pr) = source {
        let l = pr_details_spec(source);
        let md = render_events_spec(cmark_events(pr.body@));
        let part = markdown_part(md);
        assert forall|i: int| 0 <= i < md.len() implies (#[trigger] l[10 + i]).len() == md[i].len() by {
            assert(l[10 + i] == part[i]);
        }
        assert forall|i: int, j: int| 0 <= i < md.len() && 0 <= j < md[i].len() implies (#[trigger] l[10
            + i][j]).text == md[i][j].text && l[10 + i][j].style == DetailsStyle::Markdown(md[i][j].style) by {
            assert(l[10 + i] == part[i]);
        }
    }
}

} // verus!
