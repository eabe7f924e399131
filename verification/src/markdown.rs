//! Rendering of GitHub/GitLab-style Markdown into styled terminal lines.
//!
//! The Markdown is parsed by `pulldown_cmark` into a stream of events; the
//! renderer is a state machine over that stream. Its contract is the spec
//! transition [`handle_event_spec`]: every event changes the renderer's
//! abstract state [`MdState`] exactly as that function says.
//!
//! Styles are semantic ([`MdStyle`]); the colours that stand for them are
//! chosen where the lines are drawn.

use vstd::prelude::*;
use pulldown_cmark::{CodeBlockKind, Event, Options, Parser, Tag, TagEnd};
use crate::text::{
    spans_text, decimal, push_decimal, spans_view, split_lines, text_lines, lines_view, SpanView, StyledLine,
    StyledSpan,
};

verus! {

/// The inline emphasis in effect where a span of text was written.
#[derive(Clone, Copy, Debug, PartialEq, Eq, Structural)]
pub struct InlineFlags {
    pub bold: bool,
    pub italic: bool,
    pub crossed_out: bool,
    pub link: bool,
}

/// What a span of rendered Markdown shows.
#[derive(Clone, Copy, Debug, PartialEq, Eq, Structural)]
pub enum MdBase {
    /// Running text with its emphasis.
    Inline(InlineFlags),
    /// Inline code or math, with the emphasis around it.
    InlineCode(InlineFlags),
    /// Secondary text: list bullets, quote bars, link targets, rules, labels.
    Dim,
    /// A line of a code block or of display math.
    CodeBlock,
}

/// The style of a span: what it shows, and the level of the heading it
/// belongs to, if any.
#[derive(Clone, Copy, Debug, PartialEq, Eq, Structural)]
pub struct MdStyle {
    pub base: MdBase,
    pub heading: Option<u8>,
}

/// A colour of the theme that a Markdown span is drawn in.
#[derive(Clone, Copy, Debug, PartialEq, Eq, Structural)]
pub enum MdColor {
    /// The colour of the base style, unchanged.
    Base,
    /// The primary foreground.
    Primary,
    /// The secondary foreground of running text.
    Secondary,
    /// The accent of links and inline code.
    Accent,
}

/// The theme style that a Markdown span starts from.
#[derive(Clone, Copy, Debug, PartialEq, Eq, Structural)]
pub enum MdLookBase {
    /// No style of its own.
    Plain,
    /// The theme's dimmed style.
    Dim,
    /// The theme's code style: primary foreground on the highlight background.
    Code,
}

/// How a Markdown span is drawn: a base style of the theme, a foreground
/// that replaces the base's unless it is [`MdColor::Base`], and the text
/// modifiers that are added to the base's.
#[derive(Clone, Copy, Debug, PartialEq, Eq, Structural)]
pub struct MdLook {
    pub base: MdLookBase,
    pub fg: MdColor,
    pub bold: bool,
    pub italic: bool,
    pub crossed_out: bool,
    pub underlined: bool,
}

/// How running text with the given emphasis is drawn: secondary text,
/// bold, italic and crossed out as its emphasis says, and a link in the
/// accent colour, underlined.
pub open spec fn inline_look(flags: InlineFlags) -> MdLook {
    MdLook {
        base: MdLookBase::Plain,
        fg: if flags.link { MdColor::Accent } else { MdColor::Secondary },
        bold: flags.bold,
        italic: flags.italic,
        crossed_out: flags.crossed_out,
        underlined: flags.link,
    }
}

/// How a span is drawn: its base look, and inside a heading the primary
/// colour in bold, underlined for headings of levels 1 and 2.
pub open spec fn md_look_spec(style: MdStyle) -> MdLook {
    let base = match style.base {
        MdBase::Inline(flags) => inline_look(flags),
        MdBase::InlineCode(flags) => MdLook { fg: MdColor::Accent, ..inline_look(flags) },
        MdBase::Dim => MdLook {
            base: MdLookBase::Dim,
            fg: MdColor::Base,
            bold: false,
            italic: false,
            crossed_out: false,
            underlined: false,
        },
        MdBase::CodeBlock => MdLook {
            base: MdLookBase::Code,
            fg: MdColor::Base,
            bold: false,
            italic: false,
            crossed_out: false,
            underlined: false,
        },
    };
    match style.heading {
        Some(level) => MdLook { fg: MdColor::Primary, bold: true, underlined: base.underlined || level <= 2, ..base },
        None => base,
    }
}

/// How a span of rendered Markdown is drawn.
pub fn md_look(style: MdStyle) -> (r: MdLook)
    ensures
        r == md_look_spec(style),
{
    let base = match style.base {
        MdBase::Inline(flags) => MdLook {
            base: MdLookBase::Plain,
            fg: if flags.link { MdColor::Accent } else { MdColor::Secondary },
            bold: flags.bold,
            italic: flags.italic,
            crossed_out: flags.crossed_out,
            underlined: flags.link,
        },
        MdBase::InlineCode(flags) => MdLook {
            base: MdLookBase::Plain,
            fg: MdColor::Accent,
            bold: flags.bold,
            italic: flags.italic,
            crossed_out: flags.crossed_out,
            underlined: flags.link,
        },
        MdBase::Dim => MdLook {
            base: MdLookBase::Dim,
            fg: MdColor::Base,
            bold: false,
            italic: false,
            crossed_out: false,
            underlined: false,
        },
        MdBase::CodeBlock => MdLook {
            base: MdLookBase::Code,
            fg: MdColor::Base,
            bold: false,
            italic: false,
            crossed_out: false,
            underlined: false,
        },
    };
    match style.heading {
        Some(level) => MdLook {
            base: base.base,
            fg: MdColor::Primary,
            bold: true,
            italic: base.italic,
            crossed_out: base.crossed_out,
            underlined: base.underlined || level <= 2,
        },
        None => base,
    }
}

/// A start tag of the Markdown event stream, as far as rendering tells
/// tags apart. `CodeBlock` holds the info string of a fenced block (possibly
/// empty) and `None` for an indented one; `List` holds the start number of
/// an ordered list; `Link` covers links and images and holds the target.
pub enum MdTag {
    Paragraph,
    Heading(u8),
    BlockQuote,
    CodeBlock(Option<String>),
    List(Option<u64>),
    Item,
    Emphasis,
    Strong,
    Strikethrough,
    Link(String),
    Other,
}

/// An end tag of the Markdown event stream.
#[derive(Clone, Copy, Debug, PartialEq, Eq, Structural)]
pub enum MdTagEnd {
    Paragraph,
    Heading,
    BlockQuote,
    CodeBlock,
    List,
    Item,
    Emphasis,
    Strong,
    Strikethrough,
    Link,
    Other,
}

/// An event of the Markdown event stream. `Code` covers inline code and
/// inline math, `Html` block and inline HTML.
pub enum MdEvent {
    Start(MdTag),
    End(MdTagEnd),
    Text(String),
    Code(String),
    DisplayMath(String),
    Html(String),
    FootnoteReference(String),
    SoftBreak,
    HardBreak,
    Rule,
    TaskListMarker(bool),
}

#[verifier::external_type_specification]
#[verifier::external_body]
pub struct ExCmarkEvent<'a>(Event<'a>);

#[verifier::external_type_specification]
#[verifier::external_body]
pub struct ExCmarkTag<'a>(Tag<'a>);

#[verifier::external_type_specification]
#[verifier::external_body]
pub struct ExCmarkTagEnd(TagEnd);

/// Converts a `pulldown_cmark::Tag` variant by variant, moving its fields.
#[verifier::external_body]
fn md_tag(tag: Tag<'_>) -> MdTag {
    match tag {
        Tag::Paragraph => MdTag::Paragraph,
        Tag::Heading { level, .. } => MdTag::Heading(level as u8),
        Tag::BlockQuote(_) => MdTag::BlockQuote,
        Tag::CodeBlock(CodeBlockKind::Fenced(lang)) => MdTag::CodeBlock(Some(lang.to_string())),
        Tag::CodeBlock(CodeBlockKind::Indented) => MdTag::CodeBlock(None),
        Tag::List(start) => MdTag::List(start),
        Tag::Item => MdTag::Item,
        Tag::Emphasis => MdTag::Emphasis,
        Tag::Strong => MdTag::Strong,
        Tag::Strikethrough => MdTag::Strikethrough,
        Tag::Link { dest_url, .. } | Tag::Image { dest_url, .. } => MdTag::Link(dest_url.to_string()),
        _ => MdTag::Other,
    }
}

/// Converts a `pulldown_cmark::TagEnd` variant by variant.
#[verifier::external_body]
fn md_tag_end(tag: TagEnd) -> MdTagEnd {
    match tag {
        TagEnd::Paragraph => MdTagEnd::Paragraph,
        TagEnd::Heading(_) => MdTagEnd::Heading,
        TagEnd::BlockQuote(_) => MdTagEnd::BlockQuote,
        TagEnd::CodeBlock => MdTagEnd::CodeBlock,
        TagEnd::List(_) => MdTagEnd::List,
        TagEnd::Item => MdTagEnd::Item,
        TagEnd::Emphasis => MdTagEnd::Emphasis,
        TagEnd::Strong => MdTagEnd::Strong,
        TagEnd::Strikethrough => MdTagEnd::Strikethrough,
        TagEnd::Link | TagEnd::Image => MdTagEnd::Link,
        _ => MdTagEnd::Other,
    }
}

/// Converts a `pulldown_cmark::Event` variant by variant, moving its fields.
#[verifier::external_body]
fn md_event(event: Event<'_>) -> MdEvent {
    match event {
        Event::Start(tag) => MdEvent::Start(md_tag(tag)),
        Event::End(tag) => MdEvent::End(md_tag_end(tag)),
        Event::Text(t) => MdEvent::Text(t.to_string()),
        Event::Code(t) | Event::InlineMath(t) => MdEvent::Code(t.to_string()),
        Event::DisplayMath(t) => MdEvent::DisplayMath(t.to_string()),
        Event::Html(t) | Event::InlineHtml(t) => MdEvent::Html(t.to_string()),
        Event::FootnoteReference(t) => MdEvent::FootnoteReference(t.to_string()),
        Event::SoftBreak => MdEvent::SoftBreak,
        Event::HardBreak => MdEvent::HardBreak,
        Event::Rule => MdEvent::Rule,
        Event::TaskListMarker(checked) => MdEvent::TaskListMarker(checked),
    }
}

/// The event stream that `pulldown_cmark` produces for `markdown` with all
/// extensions enabled.
pub uninterp spec fn cmark_events(markdown: Seq<char>) -> Seq<MdEvent>;

/// Calls `pulldown_cmark::Parser::new_ext` with `Options::all()` and
/// collects its events. The result is the stream named [`cmark_events`]:
/// the parser's output depends on the text alone.
#[verifier::external_body]
fn markdown_events(markdown: &str) -> (r: Vec<MdEvent>)
    ensures
        r@ == cmark_events(markdown@),
{
    Parser::new_ext(markdown, Options::all()).map(md_event).collect()
}

/// The kind of block whose text is being collected.
#[derive(Clone, Copy, Debug, PartialEq, Eq, Structural)]
pub enum BlockKind {
    Paragraph,
    Heading(u8),
    ListItem,
}

/// An open list: whether it is numbered, and the number of its next item.
#[derive(Clone, Copy, Debug, PartialEq, Eq, Structural)]
pub struct ListState {
    pub ordered: bool,
    pub next: u64,
}

/// How many emphasis tags of each kind are open.
#[derive(Clone, Copy, Debug, PartialEq, Eq, Structural)]
pub struct StyleState {
    pub strong: usize,
    pub emphasis: usize,
    pub strikethrough: usize,
    pub link: usize,
}

/// The abstract state of the renderer.
pub struct MdState {
    /// The finished lines.
    pub lines: Seq<Seq<SpanView<MdStyle>>>,
    /// The spans of the line being collected.
    pub current: Seq<SpanView<MdStyle>>,
    pub block: Option<BlockKind>,
    pub lists: Seq<ListState>,
    pub quote_depth: usize,
    pub style: StyleState,
    /// The targets of the open links, innermost last.
    pub link_stack: Seq<Seq<char>>,
    pub in_code_block: bool,
    pub code_block_language: Option<Seq<char>>,
}

pub open spec fn initial_state() -> MdState {
    MdState {
        lines: Seq::empty(),
        current: Seq::empty(),
        block: None,
        lists: Seq::empty(),
        quote_depth: 0,
        style: StyleState { strong: 0, emphasis: 0, strikethrough: 0, link: 0 },
        link_stack: Seq::empty(),
        in_code_block: false,
        code_block_language: None,
    }
}

pub open spec fn span_of(text: Seq<char>, base: MdBase) -> SpanView<MdStyle> {
    SpanView { text: text, style: MdStyle { base: base, heading: None } }
}

/// `n` copies of `unit`, one after the other.
pub open spec fn repeat_text(unit: Seq<char>, n: nat) -> Seq<char>
    decreases n,
{
    if n == 0 {
        Seq::empty()
    } else {
        repeat_text(unit, (n - 1) as nat) + unit
    }
}

/// The emphasis that text written now receives.
pub open spec fn inline_flags(st: MdState) -> InlineFlags {
    InlineFlags {
        bold: st.style.strong > 0,
        italic: st.style.emphasis > 0,
        crossed_out: st.style.strikethrough > 0,
        link: st.style.link > 0,
    }
}

/// The bullet or number of the current list item.
pub open spec fn item_marker(st: MdState) -> Seq<char> {
    if st.lists.len() > 0 && st.lists.last().ordered {
        decimal(st.lists.last().next as nat) + ". "@
    } else {
        "• "@
    }
}

/// What a new line starts with: a bar for each enclosing block quote, then
/// for a list item an indent for each enclosing list and the item's marker.
pub open spec fn line_prefix(st: MdState) -> Seq<char> {
    repeat_text("│ "@, st.quote_depth as nat) + if st.block == Some(BlockKind::ListItem) {
        repeat_text(
            "  "@,
            if st.lists.len() > 0 { (st.lists.len() - 1) as nat } else { 0 },
        ) + item_marker(st)
    } else {
        Seq::empty()
    }
}

pub open spec fn ensure_prefix_spec(st: MdState) -> MdState {
    if st.current.len() > 0 || line_prefix(st).len() == 0 {
        st
    } else {
        MdState { current: seq![span_of(line_prefix(st), MdBase::Dim)], ..st }
    }
}

pub open spec fn push_span_spec(st: MdState, text: Seq<char>, base: MdBase) -> MdState {
    let s1 = ensure_prefix_spec(st);
    MdState { current: s1.current.push(span_of(text, base)), ..s1 }
}

/// The spans of a finished line: inside a heading each carries the
/// heading's level.
pub open spec fn finished_spans(spans: Seq<SpanView<MdStyle>>, block: Option<BlockKind>) -> Seq<
    SpanView<MdStyle>,
> {
    match block {
        Some(BlockKind::Heading(level)) => spans.map_values(
            |sp: SpanView<MdStyle>|
                SpanView { text: sp.text, style: MdStyle { base: sp.style.base, heading: Some(level) } },
        ),
        _ => spans,
    }
}

pub open spec fn flush_spec(st: MdState) -> MdState {
    if st.current.len() == 0 {
        st
    } else {
        MdState {
            lines: st.lines.push(finished_spans(st.current, st.block)),
            current: Seq::empty(),
            ..st
        }
    }
}

/// Adds an empty line unless the last line already is one.
pub open spec fn push_blank_spec(st: MdState) -> MdState {
    if st.lines.len() > 0 && st.lines.last().len() == 0 {
        st
    } else {
        MdState { lines: st.lines.push(Seq::empty()), ..st }
    }
}

/// Each line as an indented code line.
pub open spec fn code_lines(lines: Seq<Seq<char>>) -> Seq<Seq<SpanView<MdStyle>>> {
    lines.map_values(|l: Seq<char>| seq![span_of("    "@ + l, MdBase::CodeBlock)])
}

pub open spec fn push_code_text_spec(st: MdState, text: Seq<char>) -> MdState {
    let with_lines = st.lines + code_lines(text_lines(text));
    MdState {
        lines: if text.len() > 0 && text.last() == '\n' {
            with_lines.push(seq![span_of("    "@, MdBase::CodeBlock)])
        } else {
            with_lines
        },
        ..st
    }
}

/// Adds one piece of running text (without line feeds), if it is not empty.
pub open spec fn push_text_part(st: MdState, part: Seq<char>) -> MdState {
    if part.len() > 0 {
        push_span_spec(st, part, MdBase::Inline(inline_flags(st)))
    } else {
        st
    }
}

/// Running text: each line feed ends the line being collected.
pub open spec fn push_text_from(st: MdState, text: Seq<char>, part: Seq<char>) -> MdState
    decreases text.len(),
{
    if text.len() == 0 {
        push_text_part(st, part)
    } else if text[0] == '\n' {
        push_text_from(flush_spec(push_text_part(st, part)), text.drop_first(), Seq::empty())
    } else {
        push_text_from(st, text.drop_first(), part.push(text[0]))
    }
}

pub open spec fn push_text_spec(st: MdState, text: Seq<char>) -> MdState {
    push_text_from(st, text, Seq::empty())
}

/// The language of a code block that names one.
pub open spec fn code_language(info: Option<String>) -> Option<Seq<char>> {
    match info {
        Some(lang) => if lang@.len() > 0 {
            Some(lang@)
        } else {
            None
        },
        None => None,
    }
}

pub open spec fn start_tag_spec(st: MdState, tag: MdTag) -> MdState {
    match tag {
        MdTag::Paragraph => MdState { block: Some(BlockKind::Paragraph), ..st },
        MdTag::Heading(level) => MdState { block: Some(BlockKind::Heading(level)), ..st },
        MdTag::BlockQuote => MdState { quote_depth: (st.quote_depth + 1) as usize, ..st },
        MdTag::CodeBlock(info) => {
            let s1 = flush_spec(st);
            let lang = code_language(info);
            MdState {
                in_code_block: true,
                code_block_language: lang,
                lines: match lang {
                    Some(l) => s1.lines.push(seq![span_of("code: "@ + l, MdBase::Dim)]),
                    None => s1.lines,
                },
                ..s1
            }
        },
        MdTag::List(start) => MdState {
            lists: st.lists.push(
                ListState {
                    ordered: start is Some,
                    next: match start {
                        Some(n) => n,
                        None => 1,
                    },
                },
            ),
            ..st
        },
        MdTag::Item => MdState { block: Some(BlockKind::ListItem), ..st },
        MdTag::Emphasis => MdState {
            style: StyleState { emphasis: (st.style.emphasis + 1) as usize, ..st.style },
            ..st
        },
        MdTag::Strong => MdState {
            style: StyleState { strong: (st.style.strong + 1) as usize, ..st.style },
            ..st
        },
        MdTag::Strikethrough => MdState {
            style: StyleState { strikethrough: (st.style.strikethrough + 1) as usize, ..st.style },
            ..st
        },
        MdTag::Link(url) => MdState {
            style: StyleState { link: (st.style.link + 1) as usize, ..st.style },
            link_stack: st.link_stack.push(url@),
            ..st
        },
        MdTag::Other => st,
    }
}

pub open spec fn dec(n: usize) -> usize {
    if n > 0 {
        (n - 1) as usize
    } else {
        0
    }
}

/// The next item number after `n`; it stays at `u64::MAX` once there.
pub open spec fn next_item_number(n: u64) -> u64 {
    if n < u64::MAX {
        (n + 1) as u64
    } else {
        n
    }
}

pub open spec fn end_tag_spec(st: MdState, tag: MdTagEnd) -> MdState {
    match tag {
        MdTagEnd::Paragraph => {
            let s1 = flush_spec(st);
            let s2 = if s1.lists.len() == 0 {
                push_blank_spec(s1)
            } else {
                s1
            };
            MdState { block: None, ..s2 }
        },
        MdTagEnd::Heading => MdState { block: None, ..push_blank_spec(flush_spec(st)) },
        MdTagEnd::BlockQuote => {
            let s1 = flush_spec(st);
            push_blank_spec(MdState { quote_depth: dec(s1.quote_depth), ..s1 })
        },
        MdTagEnd::CodeBlock => push_blank_spec(
            MdState { in_code_block: false, code_block_language: None, ..st },
        ),
        MdTagEnd::List => {
            let s1 = flush_spec(st);
            push_blank_spec(
                MdState {
                    lists: if s1.lists.len() > 0 {
                        s1.lists.drop_last()
                    } else {
                        s1.lists
                    },
                    ..s1
                },
            )
        },
        MdTagEnd::Item => {
            let s1 = flush_spec(st);
            MdState {
                lists: if s1.lists.len() > 0 {
                    s1.lists.update(
                        s1.lists.len() - 1,
                        ListState { next: next_item_number(s1.lists.last().next), ..s1.lists.last() },
                    )
                } else {
                    s1.lists
                },
                block: None,
                ..s1
            }
        },
        MdTagEnd::Emphasis => MdState {
            style: StyleState { emphasis: dec(st.style.emphasis), ..st.style },
            ..st
        },
        MdTagEnd::Strong => MdState {
            style: StyleState { strong: dec(st.style.strong), ..st.style },
            ..st
        },
        MdTagEnd::Strikethrough => MdState {
            style: StyleState { strikethrough: dec(st.style.strikethrough), ..st.style },
            ..st
        },
        MdTagEnd::Link => {
            let s1 = MdState {
                style: StyleState { link: dec(st.style.link), ..st.style },
                link_stack: if st.link_stack.len() > 0 {
                    st.link_stack.drop_last()
                } else {
                    st.link_stack
                },
                ..st
            };
            if st.link_stack.len() > 0 && st.link_stack.last().len() > 0 {
                push_span_spec(s1, " ("@ + st.link_stack.last() + ")"@, MdBase::Dim)
            } else {
                s1
            }
        },
        MdTagEnd::Other => st,
    }
}

/// A horizontal rule: forty box-drawing dashes.
pub open spec fn rule_text() -> Seq<char> {
    Seq::new(40, |i: int| '─')
}

pub open spec fn handle_event_spec(st: MdState, event: MdEvent) -> MdState {
    match event {
        MdEvent::Start(tag) => start_tag_spec(st, tag),
        MdEvent::End(tag) => end_tag_spec(st, tag),
        MdEvent::Text(t) => if st.in_code_block {
            push_code_text_spec(st, t@)
        } else {
            push_text_spec(st, t@)
        },
        MdEvent::Code(t) => push_span_spec(st, t@, MdBase::InlineCode(inline_flags(st))),
        MdEvent::DisplayMath(t) => {
            let s1 = flush_spec(st);
            push_blank_spec(MdState { lines: s1.lines + code_lines(text_lines(t@)), ..s1 })
        },
        MdEvent::SoftBreak => push_text_spec(st, " "@),
        MdEvent::HardBreak => flush_spec(st),
        MdEvent::Rule => {
            let s1 = flush_spec(st);
            push_blank_spec(
                MdState { lines: s1.lines.push(seq![span_of(rule_text(), MdBase::Dim)]), ..s1 },
            )
        },
        MdEvent::Html(t) => push_text_spec(st, t@),
        MdEvent::FootnoteReference(r) => push_span_spec(st, "["@ + r@ + "]"@, MdBase::Dim),
        MdEvent::TaskListMarker(checked) => push_span_spec(
            st,
            if checked {
                "☑ "@
            } else {
                "☐ "@
            },
            MdBase::Inline(inline_flags(st)),
        ),
    }
}

/// The state after all events, in order.
pub open spec fn run_events(events: Seq<MdEvent>) -> MdState
    decreases events.len(),
{
    if events.len() == 0 {
        initial_state()
    } else {
        handle_event_spec(run_events(events.drop_last()), events.last())
    }
}

/// The lines without the empty lines at their end.
pub open spec fn drop_trailing_blanks(lines: Seq<Seq<SpanView<MdStyle>>>) -> Seq<
    Seq<SpanView<MdStyle>>,
>
    decreases lines.len(),
{
    if lines.len() > 0 && lines.last().len() == 0 {
        drop_trailing_blanks(lines.drop_last())
    } else {
        lines
    }
}

/// The placeholder shown for a description without any content.
pub open spec fn placeholder_text() -> Seq<char> {
    "No description provided."@
}

pub open spec fn finish_spec(st: MdState) -> Seq<Seq<SpanView<MdStyle>>> {
    let lines = drop_trailing_blanks(flush_spec(st).lines);
    if lines.len() == 0 {
        seq![seq![span_of(placeholder_text(), MdBase::Dim)]]
    } else {
        lines
    }
}

/// The lines that rendering an event stream produces.
pub open spec fn render_events_spec(events: Seq<MdEvent>) -> Seq<Seq<SpanView<MdStyle>>> {
    finish_spec(run_events(events))
}

/// The renderer's state while it walks the event stream.
struct MarkdownRenderer {
    lines: Vec<StyledLine<MdStyle>>,
    current: Vec<StyledSpan<MdStyle>>,
    block: Option<BlockKind>,
    lists: Vec<ListState>,
    quote_depth: usize,
    style: StyleState,
    link_stack: Vec<String>,
    in_code_block: bool,
    code_block_language: Option<String>,
}

pub open spec fn strings_view(v: Seq<String>) -> Seq<Seq<char>> {
    v.map_values(|s: String| s@)
}

pub open spec fn option_string_view(o: Option<String>) -> Option<Seq<char>> {
    match o {
        Some(s) => Some(s@),
        None => None,
    }
}

/// The counters that start tags raise are all below `bound`.
pub open spec fn counters_below(st: MdState, bound: int) -> bool {
    &&& st.quote_depth < bound
    &&& st.style.strong < bound
    &&& st.style.emphasis < bound
    &&& st.style.strikethrough < bound
    &&& st.style.link < bound
}

fn dim_style() -> (r: MdStyle)
    ensures
        r == (MdStyle { base: MdBase::Dim, heading: None }),
{
    MdStyle { base: MdBase::Dim, heading: None }
}

fn code_style() -> (r: MdStyle)
    ensures
        r == (MdStyle { base: MdBase::CodeBlock, heading: None }),
{
    MdStyle { base: MdBase::CodeBlock, heading: None }
}

/// The string `"    "` followed by `line`.
fn indented(line: &str) -> (r: String)
    ensures
        r@ == "    "@ + line@,
{
    let mut s = String::new();
    s.push(' ');
    s.push(' ');
    s.push(' ');
    s.push(' ');
    s.append(line);
    proof {
        reveal_strlit("    ");
        assert(s@ =~= "    "@ + line@);
    }
    s
}

impl MarkdownRenderer {
    spec fn state(&self) -> MdState {
        MdState {
            lines: lines_view(self.lines@),
            current: spans_view(self.current@),
            block: self.block,
            lists: self.lists@,
            quote_depth: self.quote_depth,
            style: self.style,
            link_stack: strings_view(self.link_stack@),
            in_code_block: self.in_code_block,
            code_block_language: option_string_view(self.code_block_language),
        }
    }

    fn new() -> (r: MarkdownRenderer)
        ensures
            r.state() == initial_state(),
    {
        let r = MarkdownRenderer {
            lines: Vec::new(),
            current: Vec::new(),
            block: None,
            lists: Vec::new(),
            quote_depth: 0,
            style: StyleState { strong: 0, emphasis: 0, strikethrough: 0, link: 0 },
            link_stack: Vec::new(),
            in_code_block: false,
            code_block_language: None,
        };
        proof {
            assert(r.state().lines =~= Seq::<Seq<SpanView<MdStyle>>>::empty());
            assert(r.state().current =~= Seq::<SpanView<MdStyle>>::empty());
            assert(r.state().link_stack =~= Seq::<Seq<char>>::empty());
        }
        r
    }

    fn inline_flags_now(&self) -> (r: InlineFlags)
        ensures
            r == inline_flags(self.state()),
    {
        InlineFlags {
            bold: self.style.strong > 0,
            italic: self.style.emphasis > 0,
            crossed_out: self.style.strikethrough > 0,
            link: self.style.link > 0,
        }
    }

    fn ensure_prefix(&mut self)
        ensures
            final(self).state() == ensure_prefix_spec(old(self).state()),
    {
        if self.current.len() > 0 {
            return;
        }
        let ghost st = self.state();
        let mut prefix = String::new();
        proof {
            reveal_strlit("│ ");
            reveal_strlit("  ");
            reveal_strlit("• ");
            reveal_strlit(". ");
            assert(prefix@ =~= repeat_text("│ "@, 0));
        }
        let mut q: usize = 0;
        while q < self.quote_depth
            invariant
                q <= self.quote_depth,
                prefix@ == repeat_text("│ "@, q as nat),
            decreases self.quote_depth - q,
        {
            prefix.push('│');
            prefix.push(' ');
            q = q + 1;
            proof {
                reveal_strlit("│ ");
                assert(repeat_text("│ "@, q as nat) == repeat_text("│ "@, (q - 1) as nat) + "│ "@);
                assert(prefix@ =~= repeat_text("│ "@, q as nat));
            }
        }
        let is_item = match self.block {
            Some(BlockKind::ListItem) => true,
            _ => false,
        };
        let ghost quotes = prefix@;
        if is_item {
            let indent = self.lists.len().saturating_sub(1);
            let mut k: usize = 0;
            proof {
                assert(prefix@ =~= quotes + repeat_text("  "@, 0));
            }
            while k < indent
                invariant
                    k <= indent,
                    prefix@ == quotes + repeat_text("  "@, k as nat),
                decreases indent - k,
            {
                prefix.push(' ');
                prefix.push(' ');
                k = k + 1;
                proof {
                    reveal_strlit("  ");
                    assert(repeat_text("  "@, k as nat) == repeat_text("  "@, (k - 1) as nat) + "  "@);
                    assert(prefix@ =~= quotes + repeat_text("  "@, k as nat));
                }
            }
            let ghost indented_prefix = prefix@;
            let n = self.lists.len();
            if n > 0 && self.lists[n - 1].ordered {
                push_decimal(&mut prefix, self.lists[n - 1].next);
                prefix.push('.');
                prefix.push(' ');
            } else {
                prefix.push('•');
                prefix.push(' ');
            }
            proof {
                assert(prefix@ =~= indented_prefix + item_marker(st));
            }
        }
        proof {
            assert(prefix@ =~= line_prefix(st));
        }
        if prefix.as_str().unicode_len() > 0 {
            self.current.push(StyledSpan { content: prefix, style: dim_style() });
            proof {
                assert(self.state().current =~= seq![span_of(line_prefix(st), MdBase::Dim)]);
                assert(self.state() == (MdState { current: seq![span_of(line_prefix(st), MdBase::Dim)], ..st }));
            }
        }
    }

    fn push_span(&mut self, text: String, base: MdBase)
        ensures
            final(self).state() == push_span_spec(old(self).state(), text@, base),
    {
        self.ensure_prefix();
        let ghost mid = self.state();
        self.current.push(StyledSpan { content: text, style: MdStyle { base, heading: None } });
        proof {
            assert(self.state().current =~= mid.current.push(span_of(text@, base)));
        }
    }

    fn flush_current(&mut self)
        ensures
            final(self).state() == flush_spec(old(self).state()),
    {
        if self.current.len() == 0 {
            return;
        }
        let ghost st = self.state();
        let mut spans: Vec<StyledSpan<MdStyle>> = Vec::new();
        std::mem::swap(&mut spans, &mut self.current);
        let mut out: Vec<StyledSpan<MdStyle>> = Vec::new();
        let block = self.block;
        for i in 0..spans.len()
            invariant
                spans_view(spans@) == st.current,
                block == st.block,
                out@.len() == i,
                forall|j: int|
                    0 <= j < i ==> #[trigger] spans_view(out@)[j] == finished_spans(st.current, block)[j],
        {
            let sp = &spans[i];
            let style = match block {
                Some(BlockKind::Heading(level)) => MdStyle { base: sp.style.base, heading: Some(level) },
                _ => sp.style,
            };
            let ghost old_out = spans_view(out@);
            out.push(StyledSpan { content: sp.content.clone(), style });
            proof {
                assert(st.current[i as int] == spans@[i as int]@);
                assert(spans_view(out@) =~= old_out.push(finished_spans(st.current, block)[i as int]));
            }
        }
        proof {
            assert(spans_view(out@) =~= finished_spans(st.current, block));
        }
        self.lines.push(StyledLine { spans: out });
        proof {
            assert(self.state().lines =~= st.lines.push(finished_spans(st.current, st.block)));
            assert(self.state().current =~= Seq::<SpanView<MdStyle>>::empty());
        }
    }

    fn push_blank_if_needed(&mut self)
        ensures
            final(self).state() == push_blank_spec(old(self).state()),
    {
        let n = self.lines.len();
        if n > 0 && self.lines[n - 1].spans.len() == 0 {
            return;
        }
        let ghost st = self.state();
        let blank = StyledLine { spans: Vec::new() };
        proof {
            assert(blank@ =~= Seq::<SpanView<MdStyle>>::empty());
        }
        self.lines.push(blank);
        proof {
            assert(self.state().lines =~= st.lines.push(Seq::empty()));
        }
    }

    /// Adds one line of a code block or of display math.
    fn push_code_line(&mut self, line: &str)
        ensures
            final(self).state() == (MdState {
                lines: old(self).state().lines.push(seq![span_of("    "@ + line@, MdBase::CodeBlock)]),
                ..old(self).state()
            }),
    {
        let ghost st = self.state();
        let mut spans: Vec<StyledSpan<MdStyle>> = Vec::new();
        spans.push(StyledSpan { content: indented(line), style: code_style() });
        let code_line = StyledLine { spans };
        proof {
            assert(code_line@ =~= seq![span_of("    "@ + line@, MdBase::CodeBlock)]);
        }
        self.lines.push(code_line);
        proof {
            assert(self.state().lines =~= st.lines.push(seq![span_of("    "@ + line@, MdBase::CodeBlock)]));
        }
    }

    /// Adds the lines of `text` as code lines.
    fn push_code_lines(&mut self, text: &str)
        ensures
            final(self).state() == (MdState {
                lines: old(self).state().lines + code_lines(text_lines(text@)),
                ..old(self).state()
            }),
    {
        let ghost st = self.state();
        let parts = split_lines(text);
        let ghost ls = text_lines(text@);
        for i in 0..parts.len()
            invariant
                parts@.map_values(|l: String| l@) == ls,
                self.state() == (MdState { lines: st.lines + code_lines(ls.take(i as int)), ..st }),
        {
            proof {
                assert(parts@[i as int]@ == ls[i as int]);
            }
            self.push_code_line(parts[i].as_str());
            proof {
                assert(st.lines + code_lines(ls.take(i + 1)) =~= (st.lines + code_lines(ls.take(i as int))).push(
                    seq![span_of("    "@ + ls[i as int], MdBase::CodeBlock)],
                ));
            }
        }
        proof {
            assert(ls.take(parts@.len() as int) =~= ls);
        }
    }

    fn push_code_text(&mut self, text: &str)
        ensures
            final(self).state() == push_code_text_spec(old(self).state(), text@),
    {
        let ghost st = self.state();
        self.push_code_lines(text);
        let n = text.unicode_len();
        if n > 0 && text.get_char(n - 1) == '\n' {
            self.push_code_line("");
            proof {
                reveal_strlit("");
                assert("    "@ + ""@ =~= "    "@);
            }
        }
    }

    fn push_part(&mut self, part: String)
        ensures
            final(self).state() == push_text_part(old(self).state(), part@),
    {
        if part.as_str().unicode_len() > 0 {
            let flags = self.inline_flags_now();
            self.push_span(part, MdBase::Inline(flags));
        }
    }

    fn push_text(&mut self, text: &str)
        ensures
            final(self).state() == push_text_spec(old(self).state(), text@),
    {
        let ghost st = self.state();
        let chars = crate::text::chars_of(text);
        let mut part = String::new();
        let mut i: usize = 0;
        proof {
            assert(text@.skip(0) =~= text@);
        }
        while i < chars.len()
            invariant
                chars@ == text@,
                i <= chars@.len(),
                push_text_spec(st, text@) == push_text_from(self.state(), text@.skip(i as int), part@),
            decreases chars@.len() - i,
        {
            let c = chars[i];
            proof {
                assert(text@.skip(i as int)[0] == c);
                assert(text@.skip(i as int).drop_first() =~= text@.skip(i + 1));
            }
            if c == '\n' {
                self.push_part(part);
                self.flush_current();
                part = String::new();
            } else {
                part.push(c);
            }
            i = i + 1;
        }
        proof {
            assert(text@.skip(i as int) =~= Seq::<char>::empty());
        }
        self.push_part(part);
    }
}

impl MarkdownRenderer {
    fn start_tag(&mut self, tag: MdTag)
        requires
            counters_below(old(self).state(), usize::MAX as int),
        ensures
            final(self).state() == start_tag_spec(old(self).state(), tag),
    {
        let ghost st = self.state();
        match tag {
            MdTag::Paragraph => self.block = Some(BlockKind::Paragraph),
            MdTag::Heading(level) => self.block = Some(BlockKind::Heading(level)),
            MdTag::BlockQuote => self.quote_depth = self.quote_depth + 1,
            MdTag::CodeBlock(info) => {
                self.flush_current();
                self.in_code_block = true;
                let lang = match info {
                    Some(l) => if l.as_str().unicode_len() > 0 {
                        Some(l)
                    } else {
                        None
                    },
                    None => None,
                };
                let ghost s1 = self.state();
                match &lang {
                    Some(l) => {
                        let mut label = String::from_str("code: ");
                        label.append(l.as_str());
                        let mut spans: Vec<StyledSpan<MdStyle>> = Vec::new();
                        spans.push(StyledSpan { content: label, style: dim_style() });
                        let label_line = StyledLine { spans };
                        proof {
                            reveal_strlit("code: ");
                            assert(label_line@ =~= seq![span_of("code: "@ + l@, MdBase::Dim)]);
                        }
                        self.lines.push(label_line);
                        proof {
                            assert(lines_view(self.lines@) =~= s1.lines.push(
                                seq![span_of("code: "@ + l@, MdBase::Dim)],
                            ));
                        }
                    },
                    None => {},
                }
                self.code_block_language = lang;
            },
            MdTag::List(start) => {
                let ordered = match start {
                    Some(_) => true,
                    None => false,
                };
                let next = match start {
                    Some(n) => n,
                    None => 1,
                };
                self.lists.push(ListState { ordered, next });
            },
            MdTag::Item => self.block = Some(BlockKind::ListItem),
            MdTag::Emphasis => self.style.emphasis = self.style.emphasis + 1,
            MdTag::Strong => self.style.strong = self.style.strong + 1,
            MdTag::Strikethrough => self.style.strikethrough = self.style.strikethrough + 1,
            MdTag::Link(url) => {
                self.style.link = self.style.link + 1;
                let ghost u = url@;
                let ghost before = self.link_stack@;
                self.link_stack.push(url);
                proof {
                    assert(strings_view(self.link_stack@) =~= strings_view(before).push(u));
                }
            },
            MdTag::Other => {},
        }
    }

    fn end_tag(&mut self, tag: MdTagEnd)
        ensures
            final(self).state() == end_tag_spec(old(self).state(), tag),
    {
        let ghost st = self.state();
        match tag {
            MdTagEnd::Paragraph => {
                self.flush_current();
                if self.lists.len() == 0 {
                    self.push_blank_if_needed();
                }
                self.block = None;
            },
            MdTagEnd::Heading => {
                self.flush_current();
                self.push_blank_if_needed();
                self.block = None;
            },
            MdTagEnd::BlockQuote => {
                self.flush_current();
                self.quote_depth = self.quote_depth.saturating_sub(1);
                self.push_blank_if_needed();
            },
            MdTagEnd::CodeBlock => {
                self.in_code_block = false;
                self.code_block_language = None;
                self.push_blank_if_needed();
            },
            MdTagEnd::List => {
                self.flush_current();
                let _ = self.lists.pop();
                self.push_blank_if_needed();
            },
            MdTagEnd::Item => {
                self.flush_current();
                let n = self.lists.len();
                if n > 0 {
                    let last = self.lists[n - 1];
                    let bumped = ListState { next: last.next.saturating_add(1), ..last };
                    self.lists.set(n - 1, bumped);
                }
                self.block = None;
            },
            MdTagEnd::Emphasis => self.style.emphasis = self.style.emphasis.saturating_sub(1),
            MdTagEnd::Strong => self.style.strong = self.style.strong.saturating_sub(1),
            MdTagEnd::Strikethrough => self.style.strikethrough = self.style.strikethrough.saturating_sub(1),
            MdTagEnd::Link => {
                self.style.link = self.style.link.saturating_sub(1);
                let ghost before = self.link_stack@;
                let popped = self.link_stack.pop();
                proof {
                    if before.len() > 0 {
                        assert(strings_view(self.link_stack@) =~= strings_view(before).drop_last());
                    }
                }
                match popped {
                    Some(url) => {
                        if url.as_str().unicode_len() > 0 {
                            let mut t = String::new();
                            t.push(' ');
                            t.push('(');
                            t.append(url.as_str());
                            t.push(')');
                            proof {
                                reveal_strlit(" (");
                                reveal_strlit(")");
                                assert(t@ =~= " ("@ + url@ + ")"@);
                            }
                            self.push_span(t, MdBase::Dim);
                        }
                    },
                    None => {},
                }
            },
            MdTagEnd::Other => {},
        }
    }

    fn handle_event(&mut self, event: MdEvent)
        requires
            counters_below(old(self).state(), usize::MAX as int),
        ensures
            final(self).state() == handle_event_spec(old(self).state(), event),
    {
        match event {
            MdEvent::Start(tag) => self.start_tag(tag),
            MdEvent::End(tag) => self.end_tag(tag),
            MdEvent::Text(t) => {
                if self.in_code_block {
                    self.push_code_text(t.as_str());
                } else {
                    self.push_text(t.as_str());
                }
            },
            MdEvent::Code(t) => {
                let flags = self.inline_flags_now();
                self.push_span(t, MdBase::InlineCode(flags));
            },
            MdEvent::DisplayMath(t) => {
                self.flush_current();
                self.push_code_lines(t.as_str());
                self.push_blank_if_needed();
            },
            MdEvent::SoftBreak => {
                self.push_text(" ");
            },
            MdEvent::HardBreak => self.flush_current(),
            MdEvent::Rule => {
                self.flush_current();
                let mut rule = String::new();
                let mut k: usize = 0;
                while k < 40
                    invariant
                        k <= 40,
                        rule@ == Seq::new(k as nat, |i: int| '─'),
                    decreases 40 - k,
                {
                    rule.push('─');
                    k = k + 1;
                    proof {
                        assert(rule@ =~= Seq::new(k as nat, |i: int| '─'));
                    }
                }
                let ghost s1 = self.state();
                let mut spans: Vec<StyledSpan<MdStyle>> = Vec::new();
                spans.push(StyledSpan { content: rule, style: dim_style() });
                let rule_line = StyledLine { spans };
                proof {
                    assert(rule_line@ =~= seq![span_of(rule_text(), MdBase::Dim)]);
                }
                self.lines.push(rule_line);
                proof {
                    assert(lines_view(self.lines@) =~= s1.lines.push(seq![span_of(rule_text(), MdBase::Dim)]));
                }
                self.push_blank_if_needed();
            },
            MdEvent::Html(t) => self.push_text(t.as_str()),
            MdEvent::FootnoteReference(r) => {
                let mut t = String::new();
                t.push('[');
                t.append(r.as_str());
                t.push(']');
                proof {
                    reveal_strlit("[");
                    reveal_strlit("]");
                    assert(t@ =~= "["@ + r@ + "]"@);
                }
                self.push_span(t, MdBase::Dim);
            },
            MdEvent::TaskListMarker(checked) => {
                let mut t = String::new();
                if checked {
                    t.push('☑');
                } else {
                    t.push('☐');
                }
                t.push(' ');
                proof {
                    reveal_strlit("☑ ");
                    reveal_strlit("☐ ");
                    if checked {
                        assert(t@ =~= "☑ "@);
                    } else {
                        assert(t@ =~= "☐ "@);
                    }
                }
                let flags = self.inline_flags_now();
                self.push_span(t, MdBase::Inline(flags));
            },
        }
    }

    fn finish(self) -> (r: Vec<StyledLine<MdStyle>>)
        ensures
            lines_view(r@) == finish_spec(self.state()),
    {
        let mut this = self;
        this.finish_lines()
    }

    fn finish_lines(&mut self) -> (r: Vec<StyledLine<MdStyle>>)
        ensures
            lines_view(r@) == finish_spec(old(self).state()),
    {
        self.flush_current();
        let ghost flushed = self.state().lines;
        loop
            invariant
                drop_trailing_blanks(lines_view(self.lines@)) == drop_trailing_blanks(flushed),
            ensures
                lines_view(self.lines@) == drop_trailing_blanks(flushed),
            decreases self.lines@.len(),
        {
            let n = self.lines.len();
            if n > 0 && self.lines[n - 1].spans.len() == 0 {
                let ghost before = lines_view(self.lines@);
                let _ = self.lines.pop();
                proof {
                    assert(lines_view(self.lines@) =~= before.drop_last());
                }
            } else {
                break;
            }
        }
        if self.lines.len() == 0 {
            let mut spans: Vec<StyledSpan<MdStyle>> = Vec::new();
            spans.push(StyledSpan { content: String::from_str("No description provided."), style: dim_style() });
            let placeholder = StyledLine { spans };
            proof {
                assert(placeholder@ =~= seq![span_of(placeholder_text(), MdBase::Dim)]);
            }
            let mut out: Vec<StyledLine<MdStyle>> = Vec::new();
            out.push(placeholder);
            proof {
                assert(lines_view(out@) =~= seq![seq![span_of(placeholder_text(), MdBase::Dim)]]);
            }
            out
        } else {
            let mut lines: Vec<StyledLine<MdStyle>> = Vec::new();
            std::mem::swap(&mut lines, &mut self.lines);
            lines
        }
    }
}

proof fn lemma_push_text_keeps_counters(st: MdState, text: Seq<char>, part: Seq<char>)
    ensures
        push_text_from(st, text, part).quote_depth == st.quote_depth,
        push_text_from(st, text, part).style == st.style,
    decreases text.len(),
{
    if text.len() > 0 {
        if text[0] == '\n' {
            lemma_push_text_keeps_counters(
                flush_spec(push_text_part(st, part)),
                text.drop_first(),
                Seq::empty(),
            );
        } else {
            lemma_push_text_keeps_counters(st, text.drop_first(), part.push(text[0]));
        }
    }
}

proof fn lemma_start_tag_counters(st: MdState, tag: MdTag, bound: int)
    requires
        counters_below(st, bound),
    ensures
        counters_below(start_tag_spec(st, tag), bound + 1),
{
}

proof fn lemma_end_tag_counters(st: MdState, tag: MdTagEnd, bound: int)
    requires
        counters_below(st, bound),
    ensures
        counters_below(end_tag_spec(st, tag), bound + 1),
{
}

/// An event raises each counter by at most one.
proof fn lemma_event_counters(st: MdState, event: MdEvent, bound: int)
    requires
        counters_below(st, bound),
    ensures
        counters_below(handle_event_spec(st, event), bound + 1),
{
    match event {
        MdEvent::Start(tag) => {
            lemma_start_tag_counters(st, tag, bound);
        },
        MdEvent::End(tag) => {
            lemma_end_tag_counters(st, tag, bound);
        },
        MdEvent::Text(t) => {
            lemma_push_text_keeps_counters(st, t@, Seq::empty());
        },
        MdEvent::SoftBreak => {
            lemma_push_text_keeps_counters(st, " "@, Seq::empty());
        },
        MdEvent::Html(t) => {
            lemma_push_text_keeps_counters(st, t@, Seq::empty());
        },
        _ => {},
    }
}

/// Renders an event stream into lines.
pub fn render_markdown_events(events: Vec<MdEvent>) -> (r: Vec<StyledLine<MdStyle>>)
    ensures
        lines_view(r@) == render_events_spec(events@),
{
    let mut renderer = MarkdownRenderer::new();
    let ghost all = events@;
    let n = events.len();
    for event in it: events
        invariant
            it.seq() == all,
            all.len() == n,
            renderer.state() == run_events(all.take(it.index() as int)),
            counters_below(renderer.state(), it.index() + 1),
            it.index() <= all.len(),
    {
        proof {
            let k = it.index() as int;
            assert(k < n);
            assert(all.take(k + 1).drop_last() =~= all.take(k));
            assert(all.take(k + 1).last() == event);
            lemma_event_counters(renderer.state(), event, k + 1);
        }
        renderer.handle_event(event);
    }
    proof {
        assert(all.take(all.len() as int) =~= all);
    }
    renderer.finish()
}

/// Renders GitHub/GitLab-style Markdown into styled lines without exposing
/// the raw Markdown delimiters: emphasis, headings, links, lists, block
/// quotes, rules and code blocks are mapped to styled text. An empty or
/// blank description renders as a single placeholder line.
pub fn render_markdown_lines(markdown: &str) -> (r: Vec<StyledLine<MdStyle>>)
    ensures
        lines_view(r@) == render_events_spec(cmark_events(markdown@)),
{
    let events = markdown_events(markdown);
    render_markdown_events(events)
}

/// No two neighbouring lines are both empty.
pub open spec fn no_double_blank(lines: Seq<Seq<SpanView<MdStyle>>>) -> bool {
    forall|i: int|
        0 <= i < lines.len() - 1 ==> !(#[trigger] lines[i].len() == 0 && lines[i + 1].len() == 0)
}

proof fn lemma_push_nonempty_line(lines: Seq<Seq<SpanView<MdStyle>>>, line: Seq<SpanView<MdStyle>>)
    requires
        no_double_blank(lines),
        line.len() > 0,
    ensures
        no_double_blank(lines.push(line)),
{
    let l2 = lines.push(line);
    assert forall|i: int| 0 <= i < l2.len() - 1 implies !(#[trigger] l2[i].len() == 0 && l2[i + 1].len() == 0) by {
        if i + 1 < lines.len() {
            assert(l2[i] == lines[i]);
            assert(l2[i + 1] == lines[i + 1]);
        }
    }
}

proof fn lemma_append_code_lines(lines: Seq<Seq<SpanView<MdStyle>>>, text: Seq<Seq<char>>)
    requires
        no_double_blank(lines),
    ensures
        no_double_blank(lines + code_lines(text)),
    decreases text.len(),
{
    if text.len() > 0 {
        lemma_append_code_lines(lines, text.drop_last());
        assert(code_lines(text) =~= code_lines(text.drop_last()).push(
            seq![span_of("    "@ + text.last(), MdBase::CodeBlock)],
        ));
        assert(lines + code_lines(text) =~= (lines + code_lines(text.drop_last())).push(
            seq![span_of("    "@ + text.last(), MdBase::CodeBlock)],
        ));
        lemma_push_nonempty_line(
            lines + code_lines(text.drop_last()),
            seq![span_of("    "@ + text.last(), MdBase::CodeBlock)],
        );
    } else {
        assert(lines + code_lines(text) =~= lines);
    }
}

proof fn lemma_flush_keeps(st: MdState)
    requires
        no_double_blank(st.lines),
    ensures
        no_double_blank(flush_spec(st).lines),
{
    if st.current.len() > 0 {
        assert(finished_spans(st.current, st.block).len() == st.current.len());
        lemma_push_nonempty_line(st.lines, finished_spans(st.current, st.block));
    }
}

proof fn lemma_push_blank_keeps(st: MdState)
    requires
        no_double_blank(st.lines),
    ensures
        no_double_blank(push_blank_spec(st).lines),
{
    let l2 = push_blank_spec(st).lines;
    if !(st.lines.len() > 0 && st.lines.last().len() == 0) {
        assert forall|i: int| 0 <= i < l2.len() - 1 implies !(#[trigger] l2[i].len() == 0 && l2[i + 1].len() == 0) by {
            if i + 1 < st.lines.len() {
                assert(l2[i] == st.lines[i]);
                assert(l2[i + 1] == st.lines[i + 1]);
            } else {
                assert(l2[i] == st.lines.last());
            }
        }
    }
}

proof fn lemma_push_text_keeps(st: MdState, text: Seq<char>, part: Seq<char>)
    requires
        no_double_blank(st.lines),
    ensures
        no_double_blank(push_text_from(st, text, part).lines),
    decreases text.len(),
{
    if text.len() > 0 {
        if text[0] == '\n' {
            lemma_flush_keeps(push_text_part(st, part));
            lemma_push_text_keeps(flush_spec(push_text_part(st, part)), text.drop_first(), Seq::empty());
        } else {
            lemma_push_text_keeps(st, text.drop_first(), part.push(text[0]));
        }
    }
}

proof fn lemma_start_tag_keeps(st: MdState, tag: MdTag)
    requires
        no_double_blank(st.lines),
    ensures
        no_double_blank(start_tag_spec(st, tag).lines),
{
    match tag {
        MdTag::CodeBlock(info) => {
            lemma_flush_keeps(st);
            match code_language(info) {
                Some(l) => {
                    lemma_push_nonempty_line(flush_spec(st).lines, seq![span_of("code: "@ + l, MdBase::Dim)]);
                },
                None => {},
            }
        },
        _ => {},
    }
}

proof fn lemma_end_tag_keeps(st: MdState, tag: MdTagEnd)
    requires
        no_double_blank(st.lines),
    ensures
        no_double_blank(end_tag_spec(st, tag).lines),
{
    lemma_flush_keeps(st);
    let s1 = flush_spec(st);
    match tag {
        MdTagEnd::Paragraph => {
            lemma_push_blank_keeps(s1);
        },
        MdTagEnd::Heading => {
            lemma_push_blank_keeps(s1);
        },
        MdTagEnd::BlockQuote => {
            lemma_push_blank_keeps(MdState { quote_depth: dec(s1.quote_depth), ..s1 });
        },
        MdTagEnd::CodeBlock => {
            lemma_push_blank_keeps(MdState { in_code_block: false, code_block_language: None, ..st });
        },
        MdTagEnd::List => {
            lemma_push_blank_keeps(
                MdState {
                    lists: if s1.lists.len() > 0 {
                        s1.lists.drop_last()
                    } else {
                        s1.lists
                    },
                    ..s1
                },
            );
        },
        _ => {},
    }
}

proof fn lemma_event_keeps(st: MdState, event: MdEvent)
    requires
        no_double_blank(st.lines),
    ensures
        no_double_blank(handle_event_spec(st, event).lines),
{
    match event {
        MdEvent::Start(tag) => lemma_start_tag_keeps(st, tag),
        MdEvent::End(tag) => lemma_end_tag_keeps(st, tag),
        MdEvent::Text(t) => {
            if st.in_code_block {
                let with_lines = st.lines + code_lines(text_lines(t@));
                lemma_append_code_lines(st.lines, text_lines(t@));
                if t@.len() > 0 && t@.last() == '\n' {
                    lemma_push_nonempty_line(with_lines, seq![span_of("    "@, MdBase::CodeBlock)]);
                }
            } else {
                lemma_push_text_keeps(st, t@, Seq::empty());
            }
        },
        MdEvent::DisplayMath(t) => {
            lemma_flush_keeps(st);
            let s1 = flush_spec(st);
            lemma_append_code_lines(s1.lines, text_lines(t@));
            lemma_push_blank_keeps(MdState { lines: s1.lines + code_lines(text_lines(t@)), ..s1 });
        },
        MdEvent::SoftBreak => lemma_push_text_keeps(st, " "@, Seq::empty()),
        MdEvent::HardBreak => lemma_flush_keeps(st),
        MdEvent::Rule => {
            lemma_flush_keeps(st);
            let s1 = flush_spec(st);
            lemma_push_nonempty_line(s1.lines, seq![span_of(rule_text(), MdBase::Dim)]);
            lemma_push_blank_keeps(
                MdState { lines: s1.lines.push(seq![span_of(rule_text(), MdBase::Dim)]), ..s1 },
            );
        },
        MdEvent::Html(t) => lemma_push_text_keeps(st, t@, Seq::empty()),
        _ => {},
    }
}

proof fn lemma_run_keeps(events: Seq<MdEvent>)
    ensures
        no_double_blank(run_events(events).lines),
    decreases events.len(),
{
    if events.len() > 0 {
        lemma_run_keeps(events.drop_last());
        lemma_event_keeps(run_events(events.drop_last()), events.last());
    }
}

proof fn lemma_drop_trailing(lines: Seq<Seq<SpanView<MdStyle>>>)
    requires
        no_double_blank(lines),
    ensures
        no_double_blank(drop_trailing_blanks(lines)),
        drop_trailing_blanks(lines).len() > 0 ==> drop_trailing_blanks(lines).last().len() > 0,
    decreases lines.len(),
{
    if lines.len() > 0 && lines.last().len() == 0 {
        let d = lines.drop_last();
        assert forall|i: int| 0 <= i < d.len() - 1 implies !(#[trigger] d[i].len() == 0 && d[i + 1].len() == 0) by {
            assert(d[i] == lines[i]);
            assert(d[i + 1] == lines[i + 1]);
        }
        lemma_drop_trailing(d);
    }
}

/// Rendered Markdown is never empty, never ends with an empty line, and
/// never holds two empty lines in a row: blank lines only ever separate
/// blocks.
pub proof fn law_rendered_lines_are_tidy(events: Seq<MdEvent>)
    ensures
        render_events_spec(events).len() > 0,
        render_events_spec(events).last().len() > 0,
        no_double_blank(render_events_spec(events)),
{
    let st = run_events(events);
    lemma_run_keeps(events);
    lemma_flush_keeps(st);
    lemma_drop_trailing(flush_spec(st).lines);
    let out = render_events_spec(events);
    if drop_trailing_blanks(flush_spec(st).lines).len() == 0 {
        assert(out.len() == 1);
        assert(out[0].len() == 1);
    }
}

/// Closing a link with a target appends the target, in parentheses and
/// dimmed, to the line being collected.
pub proof fn law_link_target_follows_text(st: MdState)
    requires
        st.link_stack.len() > 0,
        st.link_stack.last().len() > 0,
    ensures
        end_tag_spec(st, MdTagEnd::Link).current.last() == span_of(
            " ("@ + st.link_stack.last() + ")"@,
            MdBase::Dim,
        ),
        end_tag_spec(st, MdTagEnd::Link).lines == st.lines,
        end_tag_spec(st, MdTagEnd::Link).link_stack == st.link_stack.drop_last(),
{
}

/// A start tag and its end tag leave the emphasis counters, the quote
/// depth and the open lists as they were.
pub proof fn law_tags_balance(st: MdState)
    requires
        counters_below(st, usize::MAX as int),
    ensures
        end_tag_spec(start_tag_spec(st, MdTag::Strong), MdTagEnd::Strong).style == st.style,
        end_tag_spec(start_tag_spec(st, MdTag::Emphasis), MdTagEnd::Emphasis).style == st.style,
        end_tag_spec(start_tag_spec(st, MdTag::Strikethrough), MdTagEnd::Strikethrough).style
            == st.style,
        end_tag_spec(start_tag_spec(st, MdTag::BlockQuote), MdTagEnd::BlockQuote).quote_depth
            == st.quote_depth,
        forall|start: Option<u64>|
            #![trigger start_tag_spec(st, MdTag::List(start))]
            end_tag_spec(start_tag_spec(st, MdTag::List(start)), MdTagEnd::List).lists == st.lists,
{
    assert forall|start: Option<u64>|
        #![trigger start_tag_spec(st, MdTag::List(start))]
        end_tag_spec(start_tag_spec(st, MdTag::List(start)), MdTagEnd::List).lists == st.lists by {
        let s1 = start_tag_spec(st, MdTag::List(start));
        assert(flush_spec(s1).lists.drop_last() =~= st.lists);
    }
}

proof fn lemma_push_plain_text(st: MdState, t: Seq<char>, part: Seq<char>)
    requires
        forall|i: int| 0 <= i < t.len() ==> t[i] != '\n',
    ensures
        push_text_from(st, t, part) == push_text_part(st, part + t),
    decreases t.len(),
{
    if t.len() == 0 {
        assert(part + t =~= part);
    } else {
        lemma_push_plain_text(st, t.drop_first(), part.push(t[0]));
        assert(part.push(t[0]) + t.drop_first() =~= part + t);
    }
}

/// A soft line break inside running text renders as one blank: handling it
/// changes the renderer's state exactly as writing the text `" "` does, so
/// it adds a blank span to the line being collected and never ends a line.
pub proof fn law_soft_break_is_a_blank(st: MdState)
    requires
        !st.in_code_block,
    ensures
        handle_event_spec(st, MdEvent::SoftBreak) == push_text_part(st, " "@),
        handle_event_spec(st, MdEvent::SoftBreak).lines == st.lines,
        spans_text(handle_event_spec(st, MdEvent::SoftBreak).current) == spans_text(
            ensure_prefix_spec(st).current,
        ) + " "@,
{
    reveal_strlit(" ");
    lemma_push_plain_text(st, " "@, Seq::empty());
    assert(Seq::<char>::empty() + " "@ =~= " "@);
    let s1 = ensure_prefix_spec(st);
    let cur = s1.current.push(span_of(" "@, MdBase::Inline(inline_flags(st))));
    assert(cur.drop_last() =~= s1.current);
}

/// A paragraph of two lines of plain text, `a` and `b`, joined by a soft
/// line break, renders as one line whose text is `a`, a blank, then `b`.
pub proof fn law_soft_break_joins_paragraph_lines(events: Seq<MdEvent>, a: String, b: String)
    requires
        a@.len() > 0,
        b@.len() > 0,
        forall|i: int| 0 <= i < a@.len() ==> a@[i] != '\n',
        forall|i: int| 0 <= i < b@.len() ==> b@[i] != '\n',
        events == seq![
            MdEvent::Start(MdTag::Paragraph),
            MdEvent::Text(a),
            MdEvent::SoftBreak,
            MdEvent::Text(b),
            MdEvent::End(MdTagEnd::Paragraph),
        ],
    ensures
        render_events_spec(events).len() == 1,
        spans_text(render_events_spec(events)[0]) == a@ + " "@ + b@,
{
    reveal_strlit(" ");
    reveal_with_fuel(spans_text, 4);
    let e0 = events.take(0);
    let e1 = events.take(1);
    let e2 = events.take(2);
    let e3 = events.take(3);
    let e4 = events.take(4);
    assert(e1.drop_last() =~= e0);
    assert(e2.drop_last() =~= e1);
    assert(e3.drop_last() =~= e2);
    assert(e4.drop_last() =~= e3);
    assert(events.drop_last() =~= e4);
    assert(e0 =~= Seq::<MdEvent>::empty());
    let s0 = initial_state();
    assert(run_events(e0) == s0);
    let s1 = run_events(e1);
    assert(s1 == MdState { block: Some(BlockKind::Paragraph), ..s0 });
    assert(repeat_text("│ "@, 0) =~= Seq::<char>::empty());
    assert(line_prefix(s1) =~= Seq::<char>::empty());
    let f = MdBase::Inline(inline_flags(s1));
    let s2 = run_events(e2);
    lemma_push_plain_text(s1, a@, Seq::empty());
    assert(Seq::<char>::empty() + a@ =~= a@);
    assert(s2.current =~= seq![span_of(a@, f)]);
    assert(s2.lines == s1.lines && s2.block == s1.block && s2.style == s1.style && !s2.in_code_block);
    let s3 = run_events(e3);
    lemma_push_plain_text(s2, " "@, Seq::empty());
    assert(Seq::<char>::empty() + " "@ =~= " "@);
    assert(s3.current =~= seq![span_of(a@, f), span_of(" "@, f)]);
    assert(s3.lines == s1.lines && s3.block == s1.block && s3.style == s1.style && !s3.in_code_block);
    let s4 = run_events(e4);
    lemma_push_plain_text(s3, b@, Seq::empty());
    assert(Seq::<char>::empty() + b@ =~= b@);
    let line = seq![span_of(a@, f), span_of(" "@, f), span_of(b@, f)];
    assert(s4.current =~= line);
    assert(s4.lines == s1.lines && s4.block == s1.block && s4.lists.len() == 0);
    let s5 = run_events(events);
    assert(s5.lines =~= seq![line, Seq::<SpanView<MdStyle>>::empty()]);
    assert(s5.current.len() == 0);
    assert(flush_spec(s5) == s5);
    let kept = seq![line];
    assert(s5.lines.drop_last() =~= kept);
    assert(drop_trailing_blanks(s5.lines) == drop_trailing_blanks(kept));
    assert(drop_trailing_blanks(kept) == kept);
    assert(render_events_spec(events) == kept);
    assert(line.drop_last() =~= seq![span_of(a@, f), span_of(" "@, f)]);
    assert(line.drop_last().drop_last() =~= seq![span_of(a@, f)]);
    assert(line.drop_last().drop_last().drop_last() =~= Seq::<SpanView<MdStyle>>::empty());
    assert(spans_text(line) =~= a@ + " "@ + b@);
}

/// The style of plain running text outside any emphasis.
pub open spec fn plain_text_style() -> MdStyle {
    MdStyle {
        base: MdBase::Inline(InlineFlags { bold: false, italic: false, crossed_out: false, link: false }),
        heading: None,
    }
}

/// A heading of one line of plain text renders as that one line, its text
/// in the plain inline style marked with the heading's level.
pub proof fn law_heading_renders_one_marked_line(events: Seq<MdEvent>, level: u8, t: String)
    requires
        t@.len() > 0,
        forall|i: int| 0 <= i < t@.len() ==> t@[i] != '\n',
        events == seq![MdEvent::Start(MdTag::Heading(level)), MdEvent::Text(t), MdEvent::End(MdTagEnd::Heading)],
    ensures
        render_events_spec(events) == seq![
            seq![SpanView { text: t@, style: MdStyle { heading: Some(level), ..plain_text_style() } }],
        ],
{
    let e0 = events.take(0);
    let e1 = events.take(1);
    let e2 = events.take(2);
    assert(e1.drop_last() =~= e0);
    assert(e2.drop_last() =~= e1);
    assert(events.drop_last() =~= e2);
    assert(e0 =~= Seq::<MdEvent>::empty());
    assert(run_events(e0) == initial_state());
    assert(run_events(e1) == handle_event_spec(run_events(e0), events[0]));
    assert(run_events(e2) == handle_event_spec(run_events(e1), events[1]));
    assert(run_events(events) == handle_event_spec(run_events(e2), events[2]));
    let s1 = run_events(e1);
    assert(s1 == MdState { block: Some(BlockKind::Heading(level)), ..initial_state() });
    assert(repeat_text("│ "@, 0) =~= Seq::<char>::empty());
    assert(line_prefix(s1) =~= Seq::<char>::empty());
    let s2 = run_events(e2);
    lemma_push_plain_text(s1, t@, Seq::empty());
    assert(Seq::<char>::empty() + t@ =~= t@);
    let cur = seq![span_of(t@, MdBase::Inline(inline_flags(s1)))];
    assert(s2.current =~= cur);
    let line = seq![SpanView { text: t@, style: MdStyle { heading: Some(level), ..plain_text_style() } }];
    assert(finished_spans(cur, Some(BlockKind::Heading(level))) =~= line);
    let s3 = run_events(events);
    assert(s3.lines =~= seq![line, Seq::<SpanView<MdStyle>>::empty()]);
    assert(s3.lines.drop_last() =~= seq![line]);
    assert(drop_trailing_blanks(s3.lines) == drop_trailing_blanks(seq![line]));
}

/// Strong emphasis holds only for the text inside it: in a paragraph of
/// strong text `t` followed by plain text `u`, `t` is bold and `u` is not,
/// and the paragraph is one line.
pub proof fn law_strong_ends_with_its_tag(events: Seq<MdEvent>, t: String, u: String)
    requires
        t@.len() > 0,
        u@.len() > 0,
        forall|i: int| 0 <= i < t@.len() ==> t@[i] != '\n',
        forall|i: int| 0 <= i < u@.len() ==> u@[i] != '\n',
        events == seq![
            MdEvent::Start(MdTag::Paragraph),
            MdEvent::Start(MdTag::Strong),
            MdEvent::Text(t),
            MdEvent::End(MdTagEnd::Strong),
            MdEvent::Text(u),
            MdEvent::End(MdTagEnd::Paragraph),
        ],
    ensures
        render_events_spec(events) == seq![
            seq![
                SpanView {
                    text: t@,
                    style: MdStyle {
                        base: MdBase::Inline(InlineFlags { bold: true, italic: false, crossed_out: false, link: false }),
                        heading: None,
                    },
                },
                SpanView { text: u@, style: plain_text_style() },
            ],
        ],
{
    let e0 = events.take(0);
    let e1 = events.take(1);
    let e2 = events.take(2);
    let e3 = events.take(3);
    let e4 = events.take(4);
    let e5 = events.take(5);
    assert(e1.drop_last() =~= e0);
    assert(e2.drop_last() =~= e1);
    assert(e3.drop_last() =~= e2);
    assert(e4.drop_last() =~= e3);
    assert(e5.drop_last() =~= e4);
    assert(events.drop_last() =~= e5);
    assert(e0 =~= Seq::<MdEvent>::empty());
    assert(run_events(e0) == initial_state());
    assert(run_events(e1) == handle_event_spec(run_events(e0), events[0]));
    assert(run_events(e2) == handle_event_spec(run_events(e1), events[1]));
    assert(run_events(e3) == handle_event_spec(run_events(e2), events[2]));
    assert(run_events(e4) == handle_event_spec(run_events(e3), events[3]));
    assert(run_events(e5) == handle_event_spec(run_events(e4), events[4]));
    assert(run_events(events) == handle_event_spec(run_events(e5), events[5]));
    let s2 = run_events(e2);
    assert(s2.style.strong == 1 && s2.style.emphasis == 0 && s2.style.link == 0 && s2.style.strikethrough == 0);
    assert(repeat_text("│ "@, 0) =~= Seq::<char>::empty());
    assert(line_prefix(s2) =~= Seq::<char>::empty());
    lemma_push_plain_text(s2, t@, Seq::empty());
    assert(Seq::<char>::empty() + t@ =~= t@);
    let s3 = run_events(e3);
    let bold = MdBase::Inline(InlineFlags { bold: true, italic: false, crossed_out: false, link: false });
    assert(s3.current =~= seq![span_of(t@, bold)]);
    let s4 = run_events(e4);
    assert(s4.style.strong == 0);
    lemma_push_plain_text(s4, u@, Seq::empty());
    assert(Seq::<char>::empty() + u@ =~= u@);
    let s5 = run_events(e5);
    let line = seq![span_of(t@, bold), SpanView { text: u@, style: plain_text_style() }];
    assert(s5.current =~= line);
    let s6 = run_events(events);
    assert(s6.lines =~= seq![line, Seq::<SpanView<MdStyle>>::empty()]);
    assert(s6.lines.drop_last() =~= seq![line]);
    assert(drop_trailing_blanks(s6.lines) == drop_trailing_blanks(seq![line]));
}

/// A list of one item of plain text renders as one line: the item's marker
/// (a bullet, or the list's start number and a dot) dimmed, then the text.
pub proof fn law_list_item_starts_with_its_marker(events: Seq<MdEvent>, start: Option<u64>, t: String)
    requires
        t@.len() > 0,
        forall|i: int| 0 <= i < t@.len() ==> t@[i] != '\n',
        events == seq![
            MdEvent::Start(MdTag::List(start)),
            MdEvent::Start(MdTag::Item),
            MdEvent::Text(t),
            MdEvent::End(MdTagEnd::Item),
            MdEvent::End(MdTagEnd::List),
        ],
    ensures
        render_events_spec(events) == seq![
            seq![
                SpanView {
                    text: match start {
                        Some(n) => decimal(n as nat) + ". "@,
                        None => "• "@,
                    },
                    style: MdStyle { base: MdBase::Dim, heading: None },
                },
                SpanView { text: t@, style: plain_text_style() },
            ],
        ],
{
    reveal_strlit("• ");
    reveal_strlit(". ");
    let e0 = events.take(0);
    let e1 = events.take(1);
    let e2 = events.take(2);
    let e3 = events.take(3);
    let e4 = events.take(4);
    assert(e1.drop_last() =~= e0);
    assert(e2.drop_last() =~= e1);
    assert(e3.drop_last() =~= e2);
    assert(e4.drop_last() =~= e3);
    assert(events.drop_last() =~= e4);
    assert(e0 =~= Seq::<MdEvent>::empty());
    assert(run_events(e0) == initial_state());
    assert(run_events(e1) == handle_event_spec(run_events(e0), events[0]));
    assert(run_events(e2) == handle_event_spec(run_events(e1), events[1]));
    assert(run_events(e3) == handle_event_spec(run_events(e2), events[2]));
    assert(run_events(e4) == handle_event_spec(run_events(e3), events[3]));
    assert(run_events(events) == handle_event_spec(run_events(e4), events[4]));
    let s2 = run_events(e2);
    assert(s2.lists.len() == 1);
    let marker = match start {
        Some(n) => decimal(n as nat) + ". "@,
        None => "• "@,
    };
    assert(repeat_text("│ "@, 0) =~= Seq::<char>::empty());
    assert(repeat_text("  "@, 0) =~= Seq::<char>::empty());
    assert(item_marker(s2) == marker);
    assert(line_prefix(s2) =~= marker);
    assert(marker.len() > 0);
    lemma_push_plain_text(s2, t@, Seq::empty());
    assert(Seq::<char>::empty() + t@ =~= t@);
    let s3 = run_events(e3);
    let line = seq![span_of(marker, MdBase::Dim), SpanView { text: t@, style: plain_text_style() }];
    assert(s3.current =~= line);
    let s4 = run_events(e4);
    assert(s4.lines =~= seq![line]);
    let s5 = run_events(events);
    assert(s5.lines =~= seq![line, Seq::<SpanView<MdStyle>>::empty()]);
    assert(s5.current.len() == 0);
    assert(flush_spec(s5) == s5);
    assert(s5.lines.drop_last() =~= seq![line]);
    assert(drop_trailing_blanks(s5.lines) == drop_trailing_blanks(seq![line]));
    assert(drop_trailing_blanks(seq![line]) == seq![line]);
    assert(finish_spec(s5) == seq![line]);
    assert(render_events_spec(events) == seq![line]);
    let expected = seq![
        seq![
            SpanView {
                text: match start {
                    Some(n) => decimal(n as nat) + ". "@,
                    None => "• "@,
                },
                style: MdStyle { base: MdBase::Dim, heading: None },
            },
            SpanView { text: t@, style: plain_text_style() },
        ],
    ];
    assert(expected[0] =~= line);
    assert(expected =~= seq![line]);
}

/// How a span is drawn: a link, and inside a heading of level 1 or 2 any
/// span, is underlined; strong text and heading text are bold; emphasis is
/// italic and strikethrough crossed out; heading text takes the primary
/// colour, links and inline code the accent and other running text the
/// secondary colour; dimmed spans and code blocks keep their theme style's
/// colour outside headings.
pub proof fn law_md_look(style: MdStyle)
    ensures
        ({
            let look = md_look_spec(style);
            let flags = match style.base {
                MdBase::Inline(f) => Some(f),
                MdBase::InlineCode(f) => Some(f),
                _ => None,
            };
            let heading_level: int = match style.heading {
                Some(l) => l as int,
                None => 100,
            };
            &&& look.underlined == ((flags matches Some(f) && f.link) || heading_level <= 2)
            &&& look.bold == ((flags matches Some(f) && f.bold) || style.heading is Some)
            &&& look.italic == (flags matches Some(f) && f.italic)
            &&& look.crossed_out == (flags matches Some(f) && f.crossed_out)
            &&& style.heading is Some ==> look.fg == MdColor::Primary
            &&& style.heading is None && style.base is InlineCode ==> look.fg == MdColor::Accent
            &&& style.heading is None && (style.base matches MdBase::Inline(f) && f.link) ==> look.fg == MdColor::Accent
            &&& style.heading is None && (style.base matches MdBase::Inline(f) && !f.link) ==> look.fg
                == MdColor::Secondary
            &&& style.heading is None && (style.base is Dim || style.base is CodeBlock) ==> look.fg == MdColor::Base
            &&& look.base == match style.base {
                MdBase::Dim => MdLookBase::Dim,
                MdBase::CodeBlock => MdLookBase::Code,
                _ => MdLookBase::Plain,
            }
        }),
{
}

/// A fenced code block renders each of its lines indented by four blanks
/// in the code style, under a dimmed line naming its language when it has
/// one; its text is never reflowed as running text.
pub proof fn law_code_block_lines(events: Seq<MdEvent>, info: Option<String>, code: String)
    requires
        code@.len() > 0,
        code@.last() != '\n',
        events == seq![
            MdEvent::Start(MdTag::CodeBlock(info)),
            MdEvent::Text(code),
            MdEvent::End(MdTagEnd::CodeBlock),
        ],
    ensures
        ({
            let lines = run_events(events).lines;
            let body = text_lines(code@).map_values(
                |l: Seq<char>| seq![SpanView { text: "    "@ + l, style: MdStyle { base: MdBase::CodeBlock, heading: None } }],
            );
            match code_language(info) {
                Some(lang) => lines == seq![
                    seq![SpanView { text: "code: "@ + lang, style: MdStyle { base: MdBase::Dim, heading: None } }],
                ] + body + seq![Seq::<SpanView<MdStyle>>::empty()],
                None => lines == body + seq![Seq::<SpanView<MdStyle>>::empty()],
            }
        }),
{
    let e0 = events.take(0);
    let e1 = events.take(1);
    let e2 = events.take(2);
    assert(e1.drop_last() =~= e0);
    assert(e2.drop_last() =~= e1);
    assert(events.drop_last() =~= e2);
    assert(e0 =~= Seq::<MdEvent>::empty());
    assert(run_events(e0) == initial_state());
    assert(run_events(e1) == handle_event_spec(run_events(e0), events[0]));
    assert(run_events(e2) == handle_event_spec(run_events(e1), events[1]));
    assert(run_events(events) == handle_event_spec(run_events(e2), events[2]));
    let s1 = run_events(e1);
    assert(s1.in_code_block);
    let s2 = run_events(e2);
    let body = text_lines(code@).map_values(
        |l: Seq<char>| seq![SpanView { text: "    "@ + l, style: MdStyle { base: MdBase::CodeBlock, heading: None } }],
    );
    assert(code_lines(text_lines(code@)) =~= body);
    assert(s2.lines == s1.lines + body);
    let s3 = run_events(events);
    match code_language(info) {
        Some(lang) => {
            assert(s1.lines =~= seq![
                seq![SpanView { text: "code: "@ + lang, style: MdStyle { base: MdBase::Dim, heading: None } }],
            ]);
            assert(s2.lines.len() > 0 && s2.lines.last().len() > 0);
            assert(s3.lines =~= s2.lines.push(Seq::empty()));
        },
        None => {
            assert(s1.lines =~= Seq::<Seq<SpanView<MdStyle>>>::empty());
            assert(s2.lines =~= body);
            if body.len() > 0 {
                assert(body.last().len() == 1);
            }
            assert(s3.lines =~= body.push(Seq::empty()));
        },
    }
}

/// A quoted paragraph of plain text renders as one line: a dimmed quote
/// bar, then the text.
pub proof fn law_quote_starts_with_a_bar(events: Seq<MdEvent>, t: String)
    requires
        t@.len() > 0,
        forall|i: int| 0 <= i < t@.len() ==> t@[i] != '\n',
        events == seq![
            MdEvent::Start(MdTag::BlockQuote),
            MdEvent::Start(MdTag::Paragraph),
            MdEvent::Text(t),
            MdEvent::End(MdTagEnd::Paragraph),
            MdEvent::End(MdTagEnd::BlockQuote),
        ],
    ensures
        render_events_spec(events) == seq![
            seq![
                SpanView { text: "│ "@, style: MdStyle { base: MdBase::Dim, heading: None } },
                SpanView { text: t@, style: plain_text_style() },
            ],
        ],
{
    let e0 = events.take(0);
    let e1 = events.take(1);
    let e2 = events.take(2);
    let e3 = events.take(3);
    let e4 = events.take(4);
    assert(e1.drop_last() =~= e0);
    assert(e2.drop_last() =~= e1);
    assert(e3.drop_last() =~= e2);
    assert(e4.drop_last() =~= e3);
    assert(events.drop_last() =~= e4);
    assert(e0 =~= Seq::<MdEvent>::empty());
    assert(run_events(e0) == initial_state());
    assert(run_events(e1) == handle_event_spec(run_events(e0), events[0]));
    assert(run_events(e2) == handle_event_spec(run_events(e1), events[1]));
    assert(run_events(e3) == handle_event_spec(run_events(e2), events[2]));
    assert(run_events(e4) == handle_event_spec(run_events(e3), events[3]));
    assert(run_events(events) == handle_event_spec(run_events(e4), events[4]));
    let s2 = run_events(e2);
    assert(s2.quote_depth == 1);
    reveal_with_fuel(repeat_text, 2);
    assert(repeat_text("│ "@, 1) =~= "│ "@);
    assert(line_prefix(s2) =~= "│ "@);
    reveal_strlit("│ ");
    lemma_push_plain_text(s2, t@, Seq::empty());
    assert(Seq::<char>::empty() + t@ =~= t@);
    let s3 = run_events(e3);
    let line = seq![span_of("│ "@, MdBase::Dim), SpanView { text: t@, style: plain_text_style() }];
    assert(s3.current =~= line);
    let s4 = run_events(e4);
    assert(s4.lines =~= seq![line, Seq::<SpanView<MdStyle>>::empty()]);
    let s5 = run_events(events);
    assert(s5.lines =~= seq![line, Seq::<SpanView<MdStyle>>::empty()]);
    assert(s5.current.len() == 0);
    assert(flush_spec(s5) == s5);
    assert(s5.lines.drop_last() =~= seq![line]);
    assert(drop_trailing_blanks(s5.lines) == drop_trailing_blanks(seq![line]));
    assert(drop_trailing_blanks(seq![line]) == seq![line]);
    assert(render_events_spec(events) == seq![line]);
}

} // verus!
