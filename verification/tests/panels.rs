use opengoose::panels::{
    active_row, board_title, chat_line_to_lines, chat_title, clock, cursor_columns, done_row,
    format_log_entry, log_source, logs_title, rig_row, scroll_skip, trust_tone, TrustTone,
};
use opengoose::tui_app::{
    is_structured_event, ChatLine, LogEntry, LogLevel, MessageVisitor, Priority, RigInfo,
    RigStatus, Status, WorkItem,
};

fn make_log_entry(level: LogLevel, target: &str, structured: bool) -> LogEntry {
    LogEntry {
        timestamp_secs: 1_700_000_000,
        timestamp_nanos: 0,
        level,
        target: target.to_string(),
        message: "test message".to_string(),
        structured,
    }
}

fn chat_line_counts() {
    let user = chat_line_to_lines(&ChatLine::User("hello".into()));
    assert_eq!(user.len(), 1);
    let agent = chat_line_to_lines(&ChatLine::Agent("a\nb\nc".into()));
    assert_eq!(agent.len(), 3);
    let system = chat_line_to_lines(&ChatLine::System("note".into()));
    assert_eq!(system.len(), 1);
}

#[test]
fn ui_chat_line_to_lines_preserves_line_counts() {
    chat_line_counts();
}

#[test]
fn mod_chat_line_to_lines_preserves_line_counts() {
    chat_line_counts();
}

#[test]
fn format_log_entry_verbose_all_levels() {
    for level in [LogLevel::Error, LogLevel::Warn, LogLevel::Info, LogLevel::Debug, LogLevel::Trace] {
        let entry = make_log_entry(level, "some::target", true);
        let text: String = format_log_entry(&entry, true).concat();
        assert!(text.contains("test message"), "level={level:?}");
    }
}

#[test]
fn format_log_entry_non_verbose_target_mapping() {
    let text = format_log_entry(&make_log_entry(LogLevel::Info, "opengoose_rig::rig::foo", true), false).concat();
    assert!(text.contains("worker"));
    let text = format_log_entry(&make_log_entry(LogLevel::Info, "opengoose::evolver", true), false).concat();
    assert!(text.contains("evolver"));
    let text = format_log_entry(&make_log_entry(LogLevel::Info, "opengoose::web", true), false).concat();
    assert!(text.contains("system"));
}

#[test]
fn is_structured_target_matches_rig_and_evolver() {
    assert!(LogEntry::is_structured_target("opengoose_rig::rig"));
    assert!(LogEntry::is_structured_target("opengoose_rig::rig::something"));
    assert!(LogEntry::is_structured_target("opengoose::evolver"));
    assert!(!LogEntry::is_structured_target("goose::agents"));
    assert!(!LogEntry::is_structured_target("opengoose::web"));
}

#[test]
fn structured_events_need_info_or_more_severe() {
    assert!(is_structured_event("opengoose::evolver", LogLevel::Warn));
    assert!(is_structured_event("opengoose_rig::rig", LogLevel::Info));
    assert!(!is_structured_event("opengoose_rig::rig", LogLevel::Debug));
    assert!(!is_structured_event("goose::agents", LogLevel::Error));
}

#[test]
fn message_visitor_builds_messages() {
    let mut v = MessageVisitor::new();
    v.record_text("message", "main message");
    assert_eq!(v.message, "main message");
    let mut v = MessageVisitor::new();
    v.record_text("count", "3");
    v.record_text("name", "\"x\"");
    assert_eq!(v.message, "count = 3 name = \"x\"");
    v.record_text("message", "direct str message field");
    assert_eq!(v.message, "direct str message field");
}

#[test]
fn log_line_pieces() {
    let e = make_log_entry(LogLevel::Warn, "opengoose::evolver", true);
    assert_eq!(
        format_log_entry(&e, true),
        vec!["22:13:20", " ", "WARN ", " ", "opengoose::evolver", "  ", "test message"]
    );
    assert_eq!(format_log_entry(&e, false), vec!["22:13:20", " [evolver] ", "test message"]);
    assert_eq!(log_source("x::rig::y"), "worker");
    assert_eq!(logs_title(true), " Logs (verbose) — press v to toggle ");
    assert_eq!(logs_title(false), " Logs (structured) — press v to toggle ");
}

#[test]
fn clock_matches_chrono() {
    for secs in [0i64, 59, 3599, 86399, 86400, 1_700_000_000, -1, -86400, -86401, -1_234_567_890] {
        let want = chrono::DateTime::from_timestamp(secs, 0).unwrap().format("%H:%M:%S").to_string();
        assert_eq!(clock(secs), want, "secs = {secs}");
    }
}

#[test]
fn board_panel_rows() {
    assert_eq!(board_title(1, 2, 3), " Board — 1 open · 2 claimed · 3 done ");
    let item = WorkItem {
        id: 7,
        title: "Fix it".into(),
        description: String::new(),
        created_by: "me".into(),
        status: Status::Claimed,
        priority: Priority::P0,
        tags: vec![],
        claimed_by: Some("r1".into()),
    };
    assert_eq!(active_row(&item), vec!["● ", "#7", " P0 ", "\"Fix it\"", " (r1)"]);
    assert_eq!(done_row(&item), vec!["✓ ", "#7 \"Fix it\""]);
    let rig = RigInfo { id: "worker-1".into(), trust_level: "L2".into(), status: RigStatus::Working };
    assert_eq!(rig_row(&rig), vec!["worker-1    ", "L2  ", " ⚙"]);
    assert_eq!(trust_tone("L3"), TrustTone::Good);
    assert_eq!(trust_tone("L2.5"), TrustTone::Fair);
    assert_eq!(trust_tone("L1"), TrustTone::Low);
}

#[test]
fn scrolling_windows_and_titles() {
    assert_eq!(scroll_skip(100, 10, 0), 90);
    assert_eq!(scroll_skip(100, 10, 5), 85);
    assert_eq!(scroll_skip(5, 10, 0), 0);
    assert_eq!(scroll_skip(12, 10, 5), 0);
    assert_eq!(chat_title(true), " Chat ⏳ ");
    assert_eq!(chat_title(false), " Chat ");
}

#[test]
fn cursor_columns_count_display_width() {
    assert_eq!(cursor_columns("ab", 1), Some(1));
    assert_eq!(cursor_columns("a\u{d55c}\u{ae00}", 3), Some(5));
    assert_eq!(cursor_columns("a\u{d55c}", 99), Some(3));
    assert_eq!(cursor_columns("a\tb", 3), Some(2));
}
