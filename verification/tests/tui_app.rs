use opengoose::tui_app::{
    App, ChatLine, LogEntry, LogLevel, MessageVisitor, Priority, RigStatus, Status, Tab, WorkItem,
};

fn make_item(
    id: i64,
    title: &str,
    status: Status,
    priority: Priority,
    claimed_by: Option<&str>,
) -> WorkItem {
    WorkItem {
        id,
        title: title.into(),
        description: String::new(),
        created_by: "test".into(),
        status,
        priority,
        tags: Vec::new(),
        claimed_by: claimed_by.map(|s| s.to_string()),
    }
}

fn entry(level: LogLevel, target: &str, message: &str, structured: bool) -> LogEntry {
    LogEntry {
        timestamp_secs: 0,
        timestamp_nanos: 0,
        level,
        target: target.into(),
        message: message.into(),
        structured,
    }
}

#[test]
fn app_app_initial_state() {
    let app = App::new();
    assert_eq!(app.board.items.len(), 0);
    assert_eq!(app.board.rigs.len(), 0);
    assert_eq!(app.chat.lines.len(), 1);
    assert_eq!(app.chat.input, "");
    assert_eq!(app.chat.cursor_pos, 0);
    assert_eq!(app.chat.scroll_offset, 0);
    assert!(!app.should_quit);
    assert!(!app.agent_busy);

    assert!(
        matches!(app.chat.lines.first(), Some(ChatLine::System(s)) if s.contains("OpenGoose"))
    );
}

#[test]
fn app_rig_status_icons() {
    assert_eq!(RigStatus::Idle.icon(), "\u{1f4a4}");
    assert_eq!(RigStatus::Working.icon(), "\u{2699}");
}

#[test]
fn app_tab_next_cycles_forward() {
    assert_eq!(Tab::Chat.next(), Tab::Board);
    assert_eq!(Tab::Board.next(), Tab::Logs);
    assert_eq!(Tab::Logs.next(), Tab::Chat);
}

#[test]
fn app_tab_prev_cycles_backward() {
    assert_eq!(Tab::Chat.prev(), Tab::Logs);
    assert_eq!(Tab::Board.prev(), Tab::Chat);
    assert_eq!(Tab::Logs.prev(), Tab::Board);
}

#[test]
fn app_tab_label_returns_correct_strings() {
    assert_eq!(Tab::Chat.label(), "Chat");
    assert_eq!(Tab::Board.label(), "Board");
    assert_eq!(Tab::Logs.label(), "Logs");
}

#[test]
fn mod_app_initial_state() {
    let app = App::new();
    assert_eq!(app.board.items.len(), 0);
    assert_eq!(app.board.rigs.len(), 0);
    assert_eq!(app.chat.lines.len(), 1);
    assert_eq!(app.chat.input, "");
    assert_eq!(app.chat.cursor_pos, 0);
    assert_eq!(app.chat.scroll_offset, 0);
    assert!(!app.should_quit);
    assert!(!app.agent_busy);

    assert!(
        matches!(app.chat.lines.first(), Some(ChatLine::System(s)) if s.contains("OpenGoose"))
    );
}

#[test]
fn mod_rig_status_icons() {
    assert_eq!(RigStatus::Idle.icon(), "\u{1f4a4}");
    assert_eq!(RigStatus::Working.icon(), "\u{2699}");
}

#[test]
fn mod_tab_next_cycles_forward() {
    assert_eq!(Tab::Chat.next(), Tab::Board);
    assert_eq!(Tab::Board.next(), Tab::Logs);
    assert_eq!(Tab::Logs.next(), Tab::Chat);
}

#[test]
fn mod_tab_prev_cycles_backward() {
    assert_eq!(Tab::Chat.prev(), Tab::Logs);
    assert_eq!(Tab::Board.prev(), Tab::Chat);
    assert_eq!(Tab::Logs.prev(), Tab::Board);
}

#[test]
fn mod_tab_label_returns_correct_strings() {
    assert_eq!(Tab::Chat.label(), "Chat");
    assert_eq!(Tab::Board.label(), "Board");
    assert_eq!(Tab::Logs.label(), "Logs");
}

#[test]
fn app_board_summary_counts_open_claimed_done() {
    let mut app = App::new();
    app.board.items = vec![
        make_item(1, "open", Status::Open, Priority::P1, None),
        make_item(2, "claimed", Status::Claimed, Priority::P1, Some("r1")),
        make_item(3, "done", Status::Done, Priority::P1, Some("r1")),
    ];
    let (open, claimed, done) = app.board_summary();
    assert_eq!(open, 1);
    assert_eq!(claimed, 1);
    assert_eq!(done, 1);
}

#[test]
fn app_active_items_are_sorted_by_priority() {
    let mut app = App::new();
    app.board.items = vec![
        make_item(1, "low", Status::Open, Priority::P2, None),
        make_item(2, "high", Status::Claimed, Priority::P0, None),
        make_item(3, "mid", Status::Open, Priority::P1, None),
    ];
    let active = app.active_items();
    assert_eq!(active.iter().map(|i| i.id).collect::<Vec<_>>(), vec![2, 3, 1]);
}

#[test]
fn app_recent_done_limits_to_three_latest() {
    let mut app = App::new();
    app.board.items = vec![
        make_item(1, "done-1", Status::Done, Priority::P1, None),
        make_item(2, "done-2", Status::Done, Priority::P1, None),
        make_item(3, "done-3", Status::Done, Priority::P1, None),
        make_item(4, "done-4", Status::Done, Priority::P1, None),
    ];
    let recent = app.recent_done();
    assert_eq!(recent.iter().map(|i| i.id).collect::<Vec<_>>(), vec![4, 3, 2]);
}

#[test]
fn board_board_summary_counts_open_claimed_done() {
    let mut app = App::new();
    app.board.items = vec![
        make_item(1, "open", Status::Open, Priority::P1, None),
        make_item(2, "claimed", Status::Claimed, Priority::P1, Some("r1")),
        make_item(3, "done", Status::Done, Priority::P1, Some("r1")),
    ];
    let (open, claimed, done) = app.board_summary();
    assert_eq!(open, 1);
    assert_eq!(claimed, 1);
    assert_eq!(done, 1);
}

#[test]
fn board_active_items_are_sorted_by_priority() {
    let mut app = App::new();
    app.board.items = vec![
        make_item(1, "low", Status::Open, Priority::P2, None),
        make_item(2, "high", Status::Claimed, Priority::P0, None),
        make_item(3, "mid", Status::Open, Priority::P1, None),
    ];
    let active = app.active_items();
    assert_eq!(active.iter().map(|i| i.id).collect::<Vec<_>>(), vec![2, 3, 1]);
}

#[test]
fn board_recent_done_limits_to_three_latest() {
    let mut app = App::new();
    app.board.items = vec![
        make_item(1, "done-1", Status::Done, Priority::P1, None),
        make_item(2, "done-2", Status::Done, Priority::P1, None),
        make_item(3, "done-3", Status::Done, Priority::P1, None),
        make_item(4, "done-4", Status::Done, Priority::P1, None),
    ];
    let recent = app.recent_done();
    assert_eq!(recent.iter().map(|i| i.id).collect::<Vec<_>>(), vec![4, 3, 2]);
}

#[test]
fn app_chat_behaviors() {
    let mut app = App::new();
    app.chat.scroll_offset = 4;
    app.push_chat(ChatLine::System("ok".into()));
    assert_eq!(app.chat.scroll_offset, 0);
    assert_eq!(app.chat.lines.len(), 2);

    app.append_agent_text("hello");
    app.append_agent_text(" world");
    match app.chat.lines.last() {
        Some(ChatLine::Agent(text)) => assert_eq!(text, "hello world"),
        _ => panic!("expected agent text"),
    }
    app.chat.scroll_offset = 3;
    app.push_chat(ChatLine::System("reset".into()));
    assert_eq!(app.chat.scroll_offset, 0);
}

#[test]
fn app_cursor_byte_pos_and_char_count() {
    let mut app = App::new();
    app.chat.input = "a\u{d55c}\u{ae00}".into();
    assert_eq!(app.char_count(), 3);
    app.chat.cursor_pos = 0;
    assert_eq!(app.cursor_byte_pos(), 0);
    app.chat.cursor_pos = 1;
    assert_eq!(app.cursor_byte_pos(), 1);
    app.chat.cursor_pos = 2;
    assert_eq!(app.cursor_byte_pos(), 4);
    app.chat.cursor_pos = 3;
    assert_eq!(app.cursor_byte_pos(), app.chat.input.len());
}

#[test]
fn app_submit_input_trims_and_pushes_user_line() {
    let mut app = App::new();
    app.chat.input = "  hello ".into();
    let out = app.submit_input();
    assert_eq!(out, Some("hello".into()));
    assert_eq!(app.chat.input, "");
    assert_eq!(app.chat.cursor_pos, 0);
    assert!(matches!(app.chat.lines.last(), Some(ChatLine::User(text)) if text == "hello"));
}

#[test]
fn app_append_agent_text_creates_new_entry_when_last_is_not_agent() {
    let mut app = App::new();
    app.append_agent_text("hello");
    assert!(matches!(app.chat.lines.last(), Some(ChatLine::Agent(t)) if t == "hello"));
}

#[test]
fn app_submit_input_returns_none_for_empty_input() {
    let mut app = App::new();
    app.chat.input = "   ".into();
    let result = app.submit_input();
    assert_eq!(result, None);
    assert!(matches!(app.chat.lines.last(), Some(ChatLine::System(_))));
}

#[test]
fn chat_chat_behaviors() {
    let mut app = App::new();
    app.chat.scroll_offset = 4;
    app.push_chat(ChatLine::System("ok".into()));
    assert_eq!(app.chat.scroll_offset, 0);
    assert_eq!(app.chat.lines.len(), 2);

    app.append_agent_text("hello");
    app.append_agent_text(" world");
    match app.chat.lines.last() {
        Some(ChatLine::Agent(text)) => assert_eq!(text, "hello world"),
        _ => panic!("expected agent text"),
    }
    app.chat.scroll_offset = 3;
    app.push_chat(ChatLine::System("reset".into()));
    assert_eq!(app.chat.scroll_offset, 0);
}

#[test]
fn chat_cursor_byte_pos_and_char_count() {
    let mut app = App::new();
    app.chat.input = "a\u{d55c}\u{ae00}".into();
    assert_eq!(app.char_count(), 3);
    app.chat.cursor_pos = 0;
    assert_eq!(app.cursor_byte_pos(), 0);
    app.chat.cursor_pos = 1;
    assert_eq!(app.cursor_byte_pos(), 1);
    app.chat.cursor_pos = 2;
    assert_eq!(app.cursor_byte_pos(), 4);
    app.chat.cursor_pos = 3;
    assert_eq!(app.cursor_byte_pos(), app.chat.input.len());
}

#[test]
fn chat_submit_input_trims_and_pushes_user_line() {
    let mut app = App::new();
    app.chat.input = "  hello ".into();
    let out = app.submit_input();
    assert_eq!(out, Some("hello".into()));
    assert_eq!(app.chat.input, "");
    assert_eq!(app.chat.cursor_pos, 0);
    assert!(matches!(app.chat.lines.last(), Some(ChatLine::User(text)) if text == "hello"));
}

#[test]
fn chat_append_agent_text_creates_new_entry_when_last_is_not_agent() {
    let mut app = App::new();
    app.append_agent_text("hello");
    assert!(matches!(app.chat.lines.last(), Some(ChatLine::Agent(t)) if t == "hello"));
}

#[test]
fn chat_submit_input_returns_none_for_empty_input() {
    let mut app = App::new();
    app.chat.input = "   ".into();
    let result = app.submit_input();
    assert_eq!(result, None);
    assert!(matches!(app.chat.lines.last(), Some(ChatLine::System(_))));
}

#[test]
fn app_push_log_pops_front_when_at_limit() {
    let mut app = App::new();
    for i in 0..1000u64 {
        app.logs.entries.push_back(entry(
            LogLevel::Info,
            &format!("target-{i}"),
            &format!("msg-{i}"),
            true,
        ));
    }
    assert_eq!(app.logs.entries.len(), 1000);
    app.push_log(entry(LogLevel::Info, "new", "new msg", true));
    assert_eq!(app.logs.entries.len(), 1000);
    assert_eq!(app.logs.entries.back().expect("deque should not be empty").target, "new");
}

#[test]
fn app_push_log_does_not_reset_scroll_when_auto_scroll_false() {
    let mut app = App::new();
    app.logs.auto_scroll = false;
    app.logs.scroll_offset = 42;
    app.push_log(entry(LogLevel::Info, "t", "m", true));
    assert_eq!(app.logs.scroll_offset, 42);
}

#[test]
fn app_visible_logs_filters_by_verbose_flag() {
    let mut app = App::new();
    app.logs.entries.push_back(entry(LogLevel::Info, "t", "structured", true));
    app.logs.entries.push_back(entry(LogLevel::Debug, "t", "unstructured", false));

    app.logs.verbose = false;
    let visible = app.visible_logs();
    assert_eq!(visible.len(), 1);
    assert_eq!(visible[0].message, "structured");

    app.logs.verbose = true;
    let visible = app.visible_logs();
    assert_eq!(visible.len(), 2);
}

#[test]
fn logs_push_log_pops_front_when_at_limit() {
    let mut app = App::new();
    for i in 0..1000u64 {
        app.logs.entries.push_back(entry(
            LogLevel::Info,
            &format!("target-{i}"),
            &format!("msg-{i}"),
            true,
        ));
    }
    assert_eq!(app.logs.entries.len(), 1000);
    app.push_log(entry(LogLevel::Info, "new", "new msg", true));
    assert_eq!(app.logs.entries.len(), 1000);
    assert_eq!(app.logs.entries.back().expect("deque should not be empty").target, "new");
}

#[test]
fn logs_push_log_does_not_reset_scroll_when_auto_scroll_false() {
    let mut app = App::new();
    app.logs.auto_scroll = false;
    app.logs.scroll_offset = 42;
    app.push_log(entry(LogLevel::Info, "t", "m", true));
    assert_eq!(app.logs.scroll_offset, 42);
}

#[test]
fn logs_visible_logs_filters_by_verbose_flag() {
    let mut app = App::new();
    app.logs.entries.push_back(entry(LogLevel::Info, "t", "structured", true));
    app.logs.entries.push_back(entry(LogLevel::Debug, "t", "unstructured", false));

    app.logs.verbose = false;
    let visible = app.visible_logs();
    assert_eq!(visible.len(), 1);
    assert_eq!(visible[0].message, "structured");

    app.logs.verbose = true;
    let visible = app.visible_logs();
    assert_eq!(visible.len(), 2);
}

#[test]
fn tab_next_then_prev_returns_to_start() {
    for tab in Tab::ALL {
        assert_eq!(tab.next().prev(), tab);
        assert_eq!(tab.next().next().next(), tab);
    }
}

#[test]
fn push_log_keeps_scroll_at_bottom_with_auto_scroll() {
    let mut app = App::new();
    app.logs.scroll_offset = 7;
    app.push_log(entry(LogLevel::Warn, "t", "m", false));
    assert_eq!(app.logs.scroll_offset, 0);
    assert_eq!(app.logs.entries.len(), 1);
}

#[test]
fn log_panel_never_exceeds_capacity() {
    let mut app = App::new();
    for i in 0..1005u64 {
        app.push_log(entry(LogLevel::Info, "t", &format!("m{i}"), true));
        assert!(app.logs.entries.len() <= 1000);
    }
    assert_eq!(app.logs.entries.front().unwrap().message, "m5");
}

#[test]
fn cursor_byte_pos_clamps_past_end() {
    let mut app = App::new();
    app.chat.input = "ab".into();
    app.chat.cursor_pos = 9;
    assert_eq!(app.cursor_byte_pos(), 2);
}

#[test]
fn recent_done_with_fewer_than_three() {
    let mut app = App::new();
    app.board.items = vec![
        make_item(1, "a", Status::Done, Priority::P1, None),
        make_item(2, "b", Status::Open, Priority::P1, None),
    ];
    assert_eq!(app.recent_done().iter().map(|i| i.id).collect::<Vec<_>>(), vec![1]);
    assert!(app.active_items().iter().all(|i| i.id == 2));
}

#[test]
fn active_items_keep_board_order_within_priority() {
    let mut app = App::new();
    app.board.items = vec![
        make_item(1, "a", Status::Open, Priority::P1, None),
        make_item(2, "b", Status::Done, Priority::P0, None),
        make_item(3, "c", Status::Claimed, Priority::P1, None),
        make_item(4, "d", Status::Stuck, Priority::P0, None),
    ];
    assert_eq!(app.active_items().iter().map(|i| i.id).collect::<Vec<_>>(), vec![1, 3]);
}

#[test]
fn log_entry_fields_are_accessible() {
    let entry = LogEntry {
        timestamp_secs: 1_700_000_000,
        timestamp_nanos: 0,
        level: LogLevel::Info,
        target: "opengoose::test".to_string(),
        message: "hello".to_string(),
        structured: false,
    };
    assert_eq!(entry.target, "opengoose::test");
    assert_eq!(entry.message, "hello");
    assert!(!entry.structured);
    assert_eq!(entry.level, LogLevel::Info);
}

#[test]
fn log_entry_clone_preserves_fields() {
    let entry = LogEntry {
        timestamp_secs: 1_700_000_000,
        timestamp_nanos: 5,
        level: LogLevel::Warn,
        target: "t".to_string(),
        message: "m".to_string(),
        structured: true,
    };
    let cloned = entry.clone();
    assert_eq!(cloned.message, "m");
    assert_eq!(cloned.level, LogLevel::Warn);
    assert!(cloned.structured);
}

#[test]
fn message_visitor_record_str_message_field() {
    // An event `info!(custom_field = "custom_value", "main message")` records
    // its message field and the custom field.
    let mut v = MessageVisitor::new();
    v.record_text("message", "main message");
    v.record_text("custom_field", "custom_value");
    assert!(v.message.contains("main message"));
    assert_eq!(v.message, "main message custom_field = custom_value");
}

#[test]
fn message_visitor_record_debug_non_message_first() {
    let mut v = MessageVisitor::new();
    v.record_text("field_a", "\"value_a\"");
    v.record_text("field_b", "\"value_b\"");
    assert!(!v.message.is_empty());
    assert_eq!(v.message, "field_a = \"value_a\" field_b = \"value_b\"");
}

#[test]
fn message_visitor_record_str_with_message_field() {
    let mut v = MessageVisitor::new();
    v.record_text("message", "direct str message field");
    assert!(v.message.contains("direct str message field"));
}

#[test]
fn message_visitor_record_debug_non_message_fields() {
    let mut v = MessageVisitor::new();
    v.record_text("count", "42");
    v.record_text("retries", "3");
    assert!(!v.message.is_empty());
    assert_eq!(v.message, "count = 42 retries = 3");
}
