//! Input modes, status-line messages and popup scrolling of the review
//! application.
//!
//! Every operation is described by a spec transition function over the
//! whole [`App`] value; the executable method ensures that the new state is
//! exactly that transition applied to the old one.

use vstd::prelude::*;

verus! {

/// How long an informational message stays on the status line: three
/// seconds, in nanoseconds.
pub const MESSAGE_TTL_INFO_NS: u128 = 3_000_000_000;

/// How long a warning stays on the status line: five seconds, in
/// nanoseconds.
pub const MESSAGE_TTL_WARNING_NS: u128 = 5_000_000_000;

/// The text shown when PR details are requested outside a pull-request review.
pub open spec fn pr_details_unavailable_text() -> Seq<char> {
    "PR details are only available while reviewing a pull request"@
}

#[derive(Clone, Copy, Debug, PartialEq, Eq, Structural)]
pub enum InputMode {
    Normal,
    Command,
    Search,
    Comment,
    Help,
    Details,
    Confirm,
}

#[derive(Clone, Copy, Debug, PartialEq, Eq, Structural)]
pub enum MessageType {
    Info,
    Warning,
    Error,
}

/// A status-line message. `expires_at` is a point on the application's
/// monotonic clock, in nanoseconds; `None` means the message stays until
/// something overwrites it.
pub struct Message {
    pub content: String,
    pub message_type: MessageType,
    pub expires_at: Option<u128>,
}

/// Scroll position of a popup over a document of `total_lines` rows shown
/// in a viewport of `viewport_height` rows.
#[derive(Clone, Copy, Debug, PartialEq, Eq, Structural)]
pub struct ScrollState {
    pub scroll_offset: usize,
    pub total_lines: usize,
    pub viewport_height: usize,
}

/// What a pull request under review is described by.
pub struct PullRequestDetails {
    pub repository: String,
    pub number: u64,
    pub title: String,
    pub url: String,
    pub author: Option<String>,
    pub state: String,
    pub head_ref_name: String,
    pub base_ref_name: String,
    pub short_head: String,
    pub body: String,
}

/// Where the diff under review comes from.
pub enum DiffSource {
    WorkingTree,
    Revisions,
    PullRequest(PullRequestDetails),
}

/// An action waiting for the user's confirmation, named by what it does.
pub struct ConfirmAction {
    pub name: String,
}

/// The part of the application state that input modes, messages and
/// popup scrolling read and write.
pub struct App {
    pub message: Option<Message>,
    pub input_mode: InputMode,
    pub command_buffer: String,
    pub command_completion: Option<String>,
    pub search_buffer: String,
    pub help_state: ScrollState,
    pub details_state: ScrollState,
    pub diff_source: DiffSource,
    pub pending_confirm: Option<ConfirmAction>,
    pub clock_origin: std::time::Instant,
}

#[verifier::external_type_specification]
#[verifier::external_body]
pub struct ExInstant(std::time::Instant);

/// Calls `std::time::Instant::now`. Nothing is promised of the instant it
/// returns: it depends on the time of the call.
#[verifier::external_body]
fn instant_now() -> std::time::Instant {
    std::time::Instant::now()
}

/// Calls `std::time::Instant::elapsed`. Nothing is promised of the duration
/// it returns: it depends on the time of the call.
#[verifier::external_body]
fn instant_elapsed(origin: &std::time::Instant) -> std::time::Duration {
    origin.elapsed()
}

/// Calls `std::time::Duration::as_nanos`. Nothing is stated of the
/// result: the duration it reads is opaque here.
#[verifier::external_body]
fn duration_as_nanos(d: &std::time::Duration) -> u128 {
    d.as_nanos()
}

/// Saturating addition on the clock's nanosecond scale.
pub open spec fn clock_add(now: u128, ttl: u128) -> u128 {
    if now + ttl <= u128::MAX {
        (now + ttl) as u128
    } else {
        u128::MAX
    }
}

/// The largest offset at which the viewport still shows rows of the document.
pub open spec fn max_scroll_offset(s: ScrollState) -> usize {
    if s.total_lines >= s.viewport_height {
        (s.total_lines - s.viewport_height) as usize
    } else {
        0
    }
}

pub open spec fn scroll_down_spec(s: ScrollState, lines: usize) -> ScrollState {
    let target = s.scroll_offset + lines;
    ScrollState {
        scroll_offset: if target <= max_scroll_offset(s) {
            target as usize
        } else {
            max_scroll_offset(s)
        },
        ..s
    }
}

pub open spec fn scroll_up_spec(s: ScrollState, lines: usize) -> ScrollState {
    ScrollState {
        scroll_offset: if s.scroll_offset >= lines {
            (s.scroll_offset - lines) as usize
        } else {
            0
        },
        ..s
    }
}

pub open spec fn scroll_to_top_spec(s: ScrollState) -> ScrollState {
    ScrollState { scroll_offset: 0, ..s }
}

pub open spec fn scroll_to_bottom_spec(s: ScrollState) -> ScrollState {
    ScrollState { scroll_offset: max_scroll_offset(s), ..s }
}

/// Moves the view `lines` rows down, never past the last full page.
pub fn scroll_state_down(state: &mut ScrollState, lines: usize)
    ensures
        *final(state) == scroll_down_spec(*old(state), lines),
{
    let max_offset: usize = state.total_lines.saturating_sub(state.viewport_height);
    let target: usize = state.scroll_offset.saturating_add(lines);
    state.scroll_offset = if target < max_offset {
        target
    } else {
        max_offset
    };
}

/// Moves the view `lines` rows up, stopping at the top.
pub fn scroll_state_up(state: &mut ScrollState, lines: usize)
    ensures
        *final(state) == scroll_up_spec(*old(state), lines),
{
    state.scroll_offset = state.scroll_offset.saturating_sub(lines);
}

/// Moves the view to the last full page.
pub fn scroll_state_to_bottom(state: &mut ScrollState)
    ensures
        *final(state) == scroll_to_bottom_spec(*old(state)),
{
    state.scroll_offset = state.total_lines.saturating_sub(state.viewport_height);
}

/// The abstract state of an [`App`]: its text buffers by their characters,
/// everything else as it is.
pub struct AppView {
    pub message: Option<Message>,
    pub input_mode: InputMode,
    pub command_buffer: Seq<char>,
    pub command_completion: Option<String>,
    pub search_buffer: Seq<char>,
    pub help_state: ScrollState,
    pub details_state: ScrollState,
    pub diff_source: DiffSource,
    pub pending_confirm: Option<ConfirmAction>,
    pub clock_origin: std::time::Instant,
}

impl View for App {
    type V = AppView;

    open spec fn view(&self) -> AppView {
        AppView {
            message: self.message,
            input_mode: self.input_mode,
            command_buffer: self.command_buffer@,
            command_completion: self.command_completion,
            search_buffer: self.search_buffer@,
            help_state: self.help_state,
            details_state: self.details_state,
            diff_source: self.diff_source,
            pending_confirm: self.pending_confirm,
            clock_origin: self.clock_origin,
        }
    }
}

/// The state after a message of the given kind and lifetime was posted at `now`.
pub open spec fn set_message_spec(
    app: AppView,
    msg: String,
    message_type: MessageType,
    ttl: Option<u128>,
    now: u128,
) -> AppView {
    AppView {
        message: Some(
            Message {
                content: msg,
                message_type: message_type,
                expires_at: match ttl {
                    Some(d) => Some(clock_add(now, d)),
                    None => None,
                },
            },
        ),
        ..app
    }
}

/// Whether the current message has a deadline that `now` has reached.
pub open spec fn message_expired(app: AppView, now: u128) -> bool {
    match app.message {
        Some(m) => match m.expires_at {
            Some(t) => now >= t,
            None => false,
        },
        None => false,
    }
}

pub open spec fn clear_expired_spec(app: AppView, now: u128) -> AppView {
    if message_expired(app, now) {
        AppView { message: None, ..app }
    } else {
        app
    }
}

pub open spec fn enter_command_spec(app: AppView) -> AppView {
    AppView {
        input_mode: InputMode::Command,
        command_buffer: Seq::empty(),
        command_completion: None,
        ..app
    }
}

pub open spec fn exit_command_spec(app: AppView) -> AppView {
    AppView {
        input_mode: InputMode::Normal,
        command_buffer: Seq::empty(),
        command_completion: None,
        ..app
    }
}

pub open spec fn enter_search_spec(app: AppView) -> AppView {
    AppView { input_mode: InputMode::Search, search_buffer: Seq::empty(), ..app }
}

pub open spec fn exit_search_spec(app: AppView) -> AppView {
    AppView { input_mode: InputMode::Normal, search_buffer: Seq::empty(), ..app }
}

pub open spec fn toggle_help_spec(app: AppView) -> AppView {
    if app.input_mode == InputMode::Help {
        AppView { input_mode: InputMode::Normal, ..app }
    } else {
        AppView {
            input_mode: InputMode::Help,
            help_state: scroll_to_top_spec(app.help_state),
            ..app
        }
    }
}

pub open spec fn is_pull_request(app: AppView) -> bool {
    app.diff_source is PullRequest
}

pub open spec fn open_details_spec(app: AppView) -> AppView {
    AppView {
        input_mode: InputMode::Details,
        details_state: scroll_to_top_spec(app.details_state),
        ..app
    }
}

pub open spec fn close_details_spec(app: AppView) -> AppView {
    AppView { input_mode: InputMode::Normal, ..app }
}

pub open spec fn enter_confirm_spec(app: AppView, action: ConfirmAction) -> AppView {
    AppView { input_mode: InputMode::Confirm, pending_confirm: Some(action), ..app }
}

pub open spec fn exit_confirm_spec(app: AppView) -> AppView {
    AppView { input_mode: InputMode::Normal, pending_confirm: None, ..app }
}

pub assume_specification[ String::clear ](s: &mut String)
    ensures
        final(s)@ == Seq::<char>::empty(),
;

impl App {
    /// A fresh application in normal mode with no message, reviewing
    /// `diff_source`; its message clock starts now.
    pub fn new(diff_source: DiffSource) -> (app: App)
        ensures
            app.message is None,
            app.input_mode == InputMode::Normal,
            app.command_buffer@ == Seq::<char>::empty(),
            app.command_completion is None,
            app.search_buffer@ == Seq::<char>::empty(),
            app.help_state == (ScrollState { scroll_offset: 0, total_lines: 0, viewport_height: 0 }),
            app.details_state == (ScrollState { scroll_offset: 0, total_lines: 0, viewport_height: 0 }),
            app.diff_source == diff_source,
            app.pending_confirm is None,
    {
        let empty = ScrollState { scroll_offset: 0, total_lines: 0, viewport_height: 0 };
        App {
            message: None,
            input_mode: InputMode::Normal,
            command_buffer: String::new(),
            command_completion: None,
            search_buffer: String::new(),
            help_state: empty,
            details_state: empty,
            diff_source,
            pending_confirm: None,
            clock_origin: instant_now(),
        }
    }

    /// Nanoseconds elapsed on this application's monotonic clock.
    fn clock_now(&self) -> u128 {
        let elapsed = instant_elapsed(&self.clock_origin);
        duration_as_nanos(&elapsed)
    }

    /// Posts a message of the given kind that expires `ttl` nanoseconds
    /// after `now`, or never when `ttl` is `None`.
    pub fn set_message_at(
        &mut self,
        msg: String,
        message_type: MessageType,
        ttl: Option<u128>,
        now: u128,
    )
        ensures
            final(self)@ == set_message_spec(old(self)@, msg, message_type, ttl, now),
    {
        let expires_at = match ttl {
            Some(d) => Some(now.saturating_add(d)),
            None => None,
        };
        self.message = Some(Message { content: msg, message_type, expires_at });
    }

    fn set_message_inner(&mut self, msg: String, message_type: MessageType, ttl: Option<u128>)
        ensures
            exists|now: u128|
                final(self)@ == set_message_spec(old(self)@, msg, message_type, ttl, now),
    {
        let now = self.clock_now();
        self.set_message_at(msg, message_type, ttl, now);
    }

    /// Posts an informational message that expires after
    /// [`MESSAGE_TTL_INFO_NS`], counted from the moment of the call.
    pub fn set_message(&mut self, msg: String)
        ensures
            exists|now: u128|
                final(self)@ == set_message_spec(
                    old(self)@,
                    msg,
                    MessageType::Info,
                    Some(MESSAGE_TTL_INFO_NS),
                    now,
                ),
    {
        self.set_message_inner(msg, MessageType::Info, Some(MESSAGE_TTL_INFO_NS));
    }

    /// Posts a warning that expires after [`MESSAGE_TTL_WARNING_NS`].
    pub fn set_warning(&mut self, msg: String)
        ensures
            exists|now: u128|
                final(self)@ == set_message_spec(
                    old(self)@,
                    msg,
                    MessageType::Warning,
                    Some(MESSAGE_TTL_WARNING_NS),
                    now,
                ),
    {
        self.set_message_inner(msg, MessageType::Warning, Some(MESSAGE_TTL_WARNING_NS));
    }

    /// Posts an error, which stays until something overwrites it.
    pub fn set_error(&mut self, msg: String)
        ensures
            final(self)@ == set_message_spec(old(self)@, msg, MessageType::Error, None, 0),
    {
        self.set_message_at(msg, MessageType::Error, None, 0);
    }

    /// Warning that stays until something else overwrites it. Used for
    /// state-tied messages like the dirty-quit prompt where the visual must
    /// outlive any TTL.
    pub fn set_sticky_warning(&mut self, msg: String)
        ensures
            final(self)@ == set_message_spec(old(self)@, msg, MessageType::Warning, None, 0),
    {
        self.set_message_at(msg, MessageType::Warning, None, 0);
    }

    /// Clears the message if its deadline has been reached by `now`, and
    /// says whether it did.
    pub fn clear_expired_message_at(&mut self, now: u128) -> (cleared: bool)
        ensures
            cleared == message_expired(old(self)@, now),
            final(self)@ == clear_expired_spec(old(self)@, now),
    {
        let expired = match &self.message {
            Some(m) => match m.expires_at {
                Some(t) => now >= t,
                None => false,
            },
            None => false,
        };
        if expired {
            self.message = None;
        }
        expired
    }

    /// Returns `true` if a message was cleared so the main loop can
    /// schedule a redraw.
    pub fn clear_expired_message(&mut self) -> (cleared: bool)
        ensures
            exists|now: u128|
                cleared == message_expired(old(self)@, now)
                    && final(self)@ == clear_expired_spec(old(self)@, now),
    {
        let now = self.clock_now();
        self.clear_expired_message_at(now)
    }

    pub fn enter_command_mode(&mut self)
        ensures
            final(self)@ == enter_command_spec(old(self)@),
    {
        self.input_mode = InputMode::Command;
        self.command_buffer.clear();
        self.command_completion = None;
    }

    pub fn exit_command_mode(&mut self)
        ensures
            final(self)@ == exit_command_spec(old(self)@),
    {
        self.input_mode = InputMode::Normal;
        self.command_buffer.clear();
        self.command_completion = None;
    }

    pub fn enter_search_mode(&mut self)
        ensures
            final(self)@ == enter_search_spec(old(self)@),
    {
        self.input_mode = InputMode::Search;
        self.search_buffer.clear();
    }

    pub fn exit_search_mode(&mut self)
        ensures
            final(self)@ == exit_search_spec(old(self)@),
    {
        self.input_mode = InputMode::Normal;
        self.search_buffer.clear();
    }

    pub fn toggle_help(&mut self)
        ensures
            final(self)@ == toggle_help_spec(old(self)@),
    {
        if self.input_mode == InputMode::Help {
            self.input_mode = InputMode::Normal;
        } else {
            self.input_mode = InputMode::Help;
            self.help_state.scroll_offset = 0;
        }
    }

    /// Opens the PR details popup at its top when a pull request is under
    /// review; otherwise posts an error and leaves the mode as it was.
    pub fn open_pr_details(&mut self) -> (opened: bool)
        ensures
            opened == is_pull_request(old(self)@),
            opened ==> final(self)@ == open_details_spec(old(self)@),
            !opened ==> (final(self)@.message matches Some(m) && m.content@
                == pr_details_unavailable_text() && m.message_type == MessageType::Error
                && m.expires_at is None),
            !opened ==> final(self)@ == (AppView { message: final(self)@.message, ..old(self)@ }),
    {
        let is_pr = match &self.diff_source {
            DiffSource::PullRequest(_) => true,
            _ => false,
        };
        if !is_pr {
            let text = String::from_str(
                "PR details are only available while reviewing a pull request",
            );
            proof {
                reveal_strlit("PR details are only available while reviewing a pull request");
            }
            self.set_error(text);
            return false;
        }
        self.input_mode = InputMode::Details;
        self.details_state.scroll_offset = 0;
        true
    }

    pub fn close_pr_details(&mut self)
        ensures
            final(self)@ == close_details_spec(old(self)@),
    {
        self.input_mode = InputMode::Normal;
    }

    pub fn help_scroll_down(&mut self, lines: usize)
        ensures
            final(self)@ == (AppView {
                help_state: scroll_down_spec(old(self)@.help_state, lines),
                ..old(self)@
            }),
    {
        scroll_state_down(&mut self.help_state, lines);
    }

    pub fn help_scroll_up(&mut self, lines: usize)
        ensures
            final(self)@ == (AppView {
                help_state: scroll_up_spec(old(self)@.help_state, lines),
                ..old(self)@
            }),
    {
        scroll_state_up(&mut self.help_state, lines);
    }

    pub fn help_scroll_to_top(&mut self)
        ensures
            final(self)@ == (AppView {
                help_state: scroll_to_top_spec(old(self)@.help_state),
                ..old(self)@
            }),
    {
        self.help_state.scroll_offset = 0;
    }

    pub fn help_scroll_to_bottom(&mut self)
        ensures
            final(self)@ == (AppView {
                help_state: scroll_to_bottom_spec(old(self)@.help_state),
                ..old(self)@
            }),
    {
        scroll_state_to_bottom(&mut self.help_state);
    }

    pub fn details_scroll_down(&mut self, lines: usize)
        ensures
            final(self)@ == (AppView {
                details_state: scroll_down_spec(old(self)@.details_state, lines),
                ..old(self)@
            }),
    {
        scroll_state_down(&mut self.details_state, lines);
    }

    pub fn details_scroll_up(&mut self, lines: usize)
        ensures
            final(self)@ == (AppView {
                details_state: scroll_up_spec(old(self)@.details_state, lines),
                ..old(self)@
            }),
    {
        scroll_state_up(&mut self.details_state, lines);
    }

    pub fn details_scroll_to_top(&mut self)
        ensures
            final(self)@ == (AppView {
                details_state: scroll_to_top_spec(old(self)@.details_state),
                ..old(self)@
            }),
    {
        self.details_state.scroll_offset = 0;
    }

    pub fn details_scroll_to_bottom(&mut self)
        ensures
            final(self)@ == (AppView {
                details_state: scroll_to_bottom_spec(old(self)@.details_state),
                ..old(self)@
            }),
    {
        scroll_state_to_bottom(&mut self.details_state);
    }

    pub fn enter_confirm_mode(&mut self, action: ConfirmAction)
        ensures
            final(self)@ == enter_confirm_spec(old(self)@, action),
    {
        self.input_mode = InputMode::Confirm;
        self.pending_confirm = Some(action);
    }

    pub fn exit_confirm_mode(&mut self)
        ensures
            final(self)@ == exit_confirm_spec(old(self)@),
    {
        self.input_mode = InputMode::Normal;
        self.pending_confirm = None;
    }
}

/// An error or sticky warning never expires: clearing expired messages at
/// any later time leaves it in place.
pub proof fn law_untimed_message_never_expires(
    app: AppView,
    msg: String,
    message_type: MessageType,
    posted: u128,
    now: u128,
)
    ensures
        !message_expired(set_message_spec(app, msg, message_type, None, posted), now),
        clear_expired_spec(set_message_spec(app, msg, message_type, None, posted), now)
            == set_message_spec(app, msg, message_type, None, posted),
{
}

/// A message posted at `posted` with lifetime `ttl` is cleared exactly when
/// the clock has reached `posted + ttl`.
pub proof fn law_timed_message_expires_at_deadline(
    app: AppView,
    msg: String,
    message_type: MessageType,
    ttl: u128,
    posted: u128,
    now: u128,
)
    requires
        posted + ttl <= u128::MAX,
    ensures
        message_expired(set_message_spec(app, msg, message_type, Some(ttl), posted), now)
            <==> now >= posted + ttl,
        clear_expired_spec(set_message_spec(app, msg, message_type, Some(ttl), posted), now).message
            is None <==> now >= posted + ttl,
{
}

/// Clearing expired messages twice at the same time is the same as once.
pub proof fn law_clear_expired_idempotent(app: AppView, now: u128)
    ensures
        clear_expired_spec(clear_expired_spec(app, now), now) == clear_expired_spec(app, now),
        !message_expired(clear_expired_spec(app, now), now),
{
}

/// Leaving command mode after entering it is the same as leaving it
/// directly: normal mode, empty buffer, no completion.
pub proof fn law_command_mode_round_trip(app: AppView)
    ensures
        exit_command_spec(enter_command_spec(app)) == exit_command_spec(app),
        exit_command_spec(app).input_mode == InputMode::Normal,
        exit_command_spec(app).command_buffer == Seq::<char>::empty(),
{
}

/// Leaving search mode after entering it is the same as leaving it directly.
pub proof fn law_search_mode_round_trip(app: AppView)
    ensures
        exit_search_spec(enter_search_spec(app)) == exit_search_spec(app),
        exit_search_spec(app).input_mode == InputMode::Normal,
        exit_search_spec(app).search_buffer == Seq::<char>::empty(),
{
}

/// Toggling help shows it exactly when it was not shown; opening it always
/// starts at the top, and toggling twice from normal mode returns to normal
/// mode with the help scrolled to the top.
pub proof fn law_toggle_help(app: AppView)
    ensures
        (toggle_help_spec(app).input_mode == InputMode::Help) <==> (app.input_mode
            != InputMode::Help),
        app.input_mode != InputMode::Help ==> toggle_help_spec(app).help_state.scroll_offset == 0,
        app.input_mode == InputMode::Normal ==> toggle_help_spec(toggle_help_spec(app)) == (AppView {
            help_state: scroll_to_top_spec(app.help_state),
            ..app
        }),
{
}

/// Confirming or cancelling after entering confirm mode leaves normal mode
/// with nothing pending.
pub proof fn law_confirm_round_trip(app: AppView, action: ConfirmAction)
    ensures
        enter_confirm_spec(app, action).pending_confirm == Some(action),
        exit_confirm_spec(enter_confirm_spec(app, action)) == exit_confirm_spec(app),
        exit_confirm_spec(app).input_mode == InputMode::Normal,
        exit_confirm_spec(app).pending_confirm is None,
{
}

/// Scrolling keeps the offset within the document, scrolling down and then
/// up by the same amount returns to the start when no clamping happened,
/// and the top and bottom are where scrolling up and down stop.
pub proof fn law_scroll_bounds(s: ScrollState, lines: usize)
    ensures
        scroll_down_spec(s, lines).scroll_offset <= max_scroll_offset(s),
        scroll_up_spec(s, lines).scroll_offset <= s.scroll_offset,
        s.scroll_offset + lines <= max_scroll_offset(s) ==> scroll_up_spec(
            scroll_down_spec(s, lines),
            lines,
        ) == s,
        s.scroll_offset <= max_scroll_offset(s) ==> scroll_down_spec(s, lines).scroll_offset
            >= s.scroll_offset,
        scroll_up_spec(s, s.scroll_offset) == scroll_to_top_spec(s),
        scroll_down_spec(s, s.total_lines) == scroll_to_bottom_spec(s),
{
}

/// Scrolling moves the view by exactly the rows asked while it stays
/// within the document: down by `lines` up to the last full page, up by
/// `lines` down to the top; the sizes of the document and the viewport stay
/// as they were; the top is offset 0 and the bottom shows the last full
/// page.
pub proof fn law_scroll_moves_by_the_rows_asked(s: ScrollState, lines: usize)
    ensures
        s.scroll_offset + lines <= s.total_lines - s.viewport_height ==> scroll_down_spec(s, lines).scroll_offset
            == s.scroll_offset + lines,
        s.scroll_offset + lines > s.total_lines - s.viewport_height && s.total_lines >= s.viewport_height
            ==> scroll_down_spec(s, lines).scroll_offset == s.total_lines - s.viewport_height,
        s.total_lines < s.viewport_height ==> scroll_down_spec(s, lines).scroll_offset == 0,
        lines <= s.scroll_offset ==> scroll_up_spec(s, lines).scroll_offset == s.scroll_offset - lines,
        lines > s.scroll_offset ==> scroll_up_spec(s, lines).scroll_offset == 0,
        scroll_to_top_spec(s).scroll_offset == 0,
        s.total_lines >= s.viewport_height ==> scroll_to_bottom_spec(s).scroll_offset == s.total_lines
            - s.viewport_height,
        scroll_down_spec(s, lines).total_lines == s.total_lines && scroll_down_spec(s, lines).viewport_height
            == s.viewport_height,
        scroll_up_spec(s, lines).total_lines == s.total_lines && scroll_up_spec(s, lines).viewport_height
            == s.viewport_height,
{
}

/// Each mode operation enters its mode and changes only what belongs to it:
/// command mode starts with an empty command and no completion, search
/// mode with an empty query, the details popup and help at their top, and
/// confirm mode holds the action to confirm; leaving returns to normal
/// mode. The message, the other buffers and the diff source stay.
pub proof fn law_mode_operations_touch_only_their_state(app: AppView, action: ConfirmAction)
    ensures
        ({
            let c = enter_command_spec(app);
            &&& c.input_mode == InputMode::Command && c.command_buffer.len() == 0 && c.command_completion is None
            &&& c.search_buffer == app.search_buffer && c.message == app.message && c.diff_source == app.diff_source
                && c.pending_confirm == app.pending_confirm
        }),
        ({
            let q = enter_search_spec(app);
            &&& q.input_mode == InputMode::Search && q.search_buffer.len() == 0
            &&& q.command_buffer == app.command_buffer && q.message == app.message
        }),
        exit_search_spec(app).input_mode == InputMode::Normal && exit_search_spec(app).search_buffer.len() == 0,
        exit_command_spec(app).input_mode == InputMode::Normal && exit_command_spec(app).command_buffer.len() == 0,
        ({
            let d = open_details_spec(app);
            &&& d.input_mode == InputMode::Details && d.details_state.scroll_offset == 0
            &&& d.details_state.total_lines == app.details_state.total_lines
            &&& d.help_state == app.help_state && d.message == app.message
        }),
        close_details_spec(app).input_mode == InputMode::Normal && close_details_spec(app).details_state
            == app.details_state,
        ({
            let k = enter_confirm_spec(app, action);
            &&& k.input_mode == InputMode::Confirm && k.pending_confirm == Some(action)
            &&& k.message == app.message && k.command_buffer == app.command_buffer
        }),
        app.input_mode != InputMode::Help ==> toggle_help_spec(app).input_mode == InputMode::Help
            && toggle_help_spec(app).help_state.scroll_offset == 0,
        app.input_mode == InputMode::Help ==> toggle_help_spec(app).input_mode == InputMode::Normal
            && toggle_help_spec(app).help_state == app.help_state,
{
}

/// Posting a message shows exactly that text with its kind, replacing any
/// earlier message and changing nothing else; a timed one expires its
/// lifetime after the time it was posted (at the clock's end at the
/// latest), an untimed one never.
pub proof fn law_posted_message_is_shown(app: AppView, msg: String, kind: MessageType, ttl: Option<u128>, now: u128)
    ensures
        ({
            let a = set_message_spec(app, msg, kind, ttl, now);
            &&& a.message matches Some(m) && m.content == msg && m.message_type == kind
            &&& ttl is Some && now + ttl->0 <= u128::MAX ==> a.message->0.expires_at == Some((now + ttl->0) as u128)
            &&& ttl is Some && now + ttl->0 > u128::MAX ==> a.message->0.expires_at == Some(u128::MAX)
            &&& ttl is None ==> a.message->0.expires_at is None
            &&& a.input_mode == app.input_mode && a.command_buffer == app.command_buffer && a.search_buffer
                == app.search_buffer && a.help_state == app.help_state && a.details_state == app.details_state
        }),
{
}

} // verus!
