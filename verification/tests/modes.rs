use tuicr_view::modes::{
    App, ConfirmAction, DiffSource, InputMode, MessageType, PullRequestDetails, ScrollState,
    MESSAGE_TTL_INFO_NS, MESSAGE_TTL_WARNING_NS,
};

fn pr() -> PullRequestDetails {
    PullRequestDetails {
        repository: "agavra/tuicr".to_string(),
        number: 125,
        title: "test pr".to_string(),
        url: "https://example.com".to_string(),
        author: None,
        state: "OPEN".to_string(),
        head_ref_name: "feat".to_string(),
        base_ref_name: "main".to_string(),
        short_head: "headsha".to_string(),
        body: String::new(),
    }
}

#[test]
fn new_app_starts_in_normal_mode_without_message() {
    let app = App::new(DiffSource::WorkingTree);
    assert_eq!(app.input_mode, InputMode::Normal);
    assert!(app.message.is_none());
    assert!(app.pending_confirm.is_none());
}

#[test]
fn timed_message_expires_exactly_at_its_deadline() {
    let mut app = App::new(DiffSource::WorkingTree);
    app.set_message_at("saved".to_string(), MessageType::Info, Some(MESSAGE_TTL_INFO_NS), 1000);
    assert_eq!(app.message.as_ref().unwrap().expires_at, Some(1000 + MESSAGE_TTL_INFO_NS));
    assert!(!app.clear_expired_message_at(1000 + MESSAGE_TTL_INFO_NS - 1));
    assert!(app.message.is_some());
    assert!(app.clear_expired_message_at(1000 + MESSAGE_TTL_INFO_NS));
    assert!(app.message.is_none());
    assert!(!app.clear_expired_message_at(u128::MAX));
}

#[test]
fn expiry_saturates_at_the_end_of_the_clock() {
    let mut app = App::new(DiffSource::WorkingTree);
    app.set_message_at("w".to_string(), MessageType::Warning, Some(MESSAGE_TTL_WARNING_NS), u128::MAX - 1);
    assert_eq!(app.message.as_ref().unwrap().expires_at, Some(u128::MAX));
}

#[test]
fn errors_and_sticky_warnings_never_expire() {
    let mut app = App::new(DiffSource::WorkingTree);
    app.set_error("boom".to_string());
    let m = app.message.as_ref().unwrap();
    assert_eq!(m.message_type, MessageType::Error);
    assert_eq!(m.expires_at, None);
    assert!(!app.clear_expired_message_at(u128::MAX));
    app.set_sticky_warning("unsaved".to_string());
    let m = app.message.as_ref().unwrap();
    assert_eq!(m.message_type, MessageType::Warning);
    assert_eq!(m.content, "unsaved");
    assert!(!app.clear_expired_message());
    assert!(app.message.is_some());
}

#[test]
fn set_message_and_warning_use_their_lifetimes() {
    let mut app = App::new(DiffSource::WorkingTree);
    app.set_message("info".to_string());
    let m = app.message.as_ref().unwrap();
    assert_eq!(m.message_type, MessageType::Info);
    assert!(m.expires_at.unwrap() >= MESSAGE_TTL_INFO_NS);
    app.set_warning("careful".to_string());
    let m = app.message.as_ref().unwrap();
    assert_eq!(m.message_type, MessageType::Warning);
    assert!(m.expires_at.unwrap() >= MESSAGE_TTL_WARNING_NS);
    assert!(!app.clear_expired_message());
}

#[test]
fn command_and_search_modes_clear_their_buffers() {
    let mut app = App::new(DiffSource::WorkingTree);
    app.command_buffer.push_str("wq");
    app.command_completion = Some("write".to_string());
    app.enter_command_mode();
    assert_eq!(app.input_mode, InputMode::Command);
    assert!(app.command_buffer.is_empty());
    assert!(app.command_completion.is_none());
    app.command_buffer.push_str("q");
    app.exit_command_mode();
    assert_eq!(app.input_mode, InputMode::Normal);
    assert!(app.command_buffer.is_empty());
    app.search_buffer.push_str("needle");
    app.enter_search_mode();
    assert_eq!(app.input_mode, InputMode::Search);
    assert!(app.search_buffer.is_empty());
    app.search_buffer.push_str("x");
    app.exit_search_mode();
    assert_eq!(app.input_mode, InputMode::Normal);
    assert!(app.search_buffer.is_empty());
}

#[test]
fn toggle_help_opens_at_top_and_closes_to_normal() {
    let mut app = App::new(DiffSource::WorkingTree);
    app.help_state = ScrollState { scroll_offset: 7, total_lines: 40, viewport_height: 10 };
    app.toggle_help();
    assert_eq!(app.input_mode, InputMode::Help);
    assert_eq!(app.help_state.scroll_offset, 0);
    app.toggle_help();
    assert_eq!(app.input_mode, InputMode::Normal);
    app.input_mode = InputMode::Command;
    app.toggle_help();
    assert_eq!(app.input_mode, InputMode::Help);
}

#[test]
fn pr_details_need_a_pull_request() {
    let mut app = App::new(DiffSource::WorkingTree);
    app.input_mode = InputMode::Search;
    assert!(!app.open_pr_details());
    assert_eq!(app.input_mode, InputMode::Search);
    let m = app.message.as_ref().unwrap();
    assert_eq!(m.content, "PR details are only available while reviewing a pull request");
    assert_eq!(m.message_type, MessageType::Error);

    let mut app = App::new(DiffSource::PullRequest(pr()));
    app.details_state.scroll_offset = 5;
    assert!(app.open_pr_details());
    assert_eq!(app.input_mode, InputMode::Details);
    assert_eq!(app.details_state.scroll_offset, 0);
    app.close_pr_details();
    assert_eq!(app.input_mode, InputMode::Normal);
}

#[test]
fn popup_scrolling_stays_within_the_document() {
    let mut app = App::new(DiffSource::WorkingTree);
    app.help_state = ScrollState { scroll_offset: 0, total_lines: 30, viewport_height: 10 };
    app.help_scroll_down(15);
    assert_eq!(app.help_state.scroll_offset, 15);
    app.help_scroll_down(15);
    assert_eq!(app.help_state.scroll_offset, 20);
    app.help_scroll_up(3);
    assert_eq!(app.help_state.scroll_offset, 17);
    app.help_scroll_up(100);
    assert_eq!(app.help_state.scroll_offset, 0);
    app.help_scroll_to_bottom();
    assert_eq!(app.help_state.scroll_offset, 20);
    app.help_scroll_to_top();
    assert_eq!(app.help_state.scroll_offset, 0);

    app.details_state = ScrollState { scroll_offset: 2, total_lines: 5, viewport_height: 10 };
    app.details_scroll_down(usize::MAX);
    assert_eq!(app.details_state.scroll_offset, 0);
    app.details_state = ScrollState { scroll_offset: 2, total_lines: 50, viewport_height: 10 };
    app.details_scroll_down(usize::MAX);
    assert_eq!(app.details_state.scroll_offset, 40);
    app.details_scroll_up(1);
    assert_eq!(app.details_state.scroll_offset, 39);
    app.details_scroll_to_top();
    assert_eq!(app.details_state.scroll_offset, 0);
    app.details_scroll_to_bottom();
    assert_eq!(app.details_state.scroll_offset, 40);
}

#[test]
fn confirm_mode_holds_the_pending_action() {
    let mut app = App::new(DiffSource::WorkingTree);
    app.enter_confirm_mode(ConfirmAction { name: "quit".to_string() });
    assert_eq!(app.input_mode, InputMode::Confirm);
    assert_eq!(app.pending_confirm.as_ref().unwrap().name, "quit");
    app.exit_confirm_mode();
    assert_eq!(app.input_mode, InputMode::Normal);
    assert!(app.pending_confirm.is_none());
}
