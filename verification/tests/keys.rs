use opengoose::key_command::{KeyCode, KeyEvent, KeyModifiers};
use opengoose::keys::{handle_key, KeyEffect};
use opengoose::tui_app::{App, ChatLine, Priority, Status, Tab, WorkItem};
use opengoose::tui_event::{show_board_summary, task_posted};

fn press(app: &mut App, code: KeyCode, mods: KeyModifiers) -> KeyEffect {
    handle_key(KeyEvent::new(code, mods), app)
}

fn enter(app: &mut App) -> KeyEffect {
    press(app, KeyCode::Enter, KeyModifiers::none())
}

fn quits(effect: &KeyEffect) -> bool {
    matches!(effect, KeyEffect::Quit)
}

fn has_system(app: &App, f: impl Fn(&str) -> bool) -> bool {
    app.chat.lines.iter().any(|l| matches!(l, ChatLine::System(t) if f(t)))
}

#[test]
fn keys_handle_key_char_and_backspace() {
    let mut app = App::new();
    let effect = press(&mut app, KeyCode::Char('a'), KeyModifiers::none());
    assert!(!quits(&effect));
    assert_eq!(app.chat.input, "a");
    assert_eq!(app.chat.cursor_pos, 1);
    let effect = press(&mut app, KeyCode::Backspace, KeyModifiers::none());
    assert!(!quits(&effect));
    assert_eq!(app.chat.input, "");
    assert_eq!(app.chat.cursor_pos, 0);
}

#[test]
fn keys_handle_key_escape_and_scrolling() {
    let mut app = App::new();
    assert!(quits(&press(&mut app, KeyCode::Char('c'), KeyModifiers::control())));
    assert!(app.should_quit);
    assert_eq!(app.chat.scroll_offset, 0);
}

#[test]
fn keys_handle_key_scroll_keys_when_input_empty() {
    let mut app = App::new();
    app.chat.scroll_offset = 0;
    press(&mut app, KeyCode::Up, KeyModifiers::none());
    assert_eq!(app.chat.scroll_offset, 1);
    app.chat.scroll_offset = 3;
    press(&mut app, KeyCode::Down, KeyModifiers::none());
    assert_eq!(app.chat.scroll_offset, 2);
}

#[test]
fn keys_handle_key_tab_cycles_forward() {
    let mut app = App::new();
    assert_eq!(app.current_tab, Tab::Chat);
    press(&mut app, KeyCode::Tab, KeyModifiers::none());
    assert_eq!(app.current_tab, Tab::Board);
    press(&mut app, KeyCode::Tab, KeyModifiers::none());
    assert_eq!(app.current_tab, Tab::Logs);
    press(&mut app, KeyCode::Tab, KeyModifiers::none());
    assert_eq!(app.current_tab, Tab::Chat);
}

#[test]
fn keys_handle_key_backtab_cycles_backward() {
    let mut app = App::new();
    press(&mut app, KeyCode::BackTab, KeyModifiers::shift());
    assert_eq!(app.current_tab, Tab::Logs);
    press(&mut app, KeyCode::BackTab, KeyModifiers::shift());
    assert_eq!(app.current_tab, Tab::Board);
}

#[test]
fn keys_handle_key_ctrl_1_2_3_jump_to_tabs() {
    let mut app = App::new();
    press(&mut app, KeyCode::Char('2'), KeyModifiers::control());
    assert_eq!(app.current_tab, Tab::Board);
    press(&mut app, KeyCode::Char('3'), KeyModifiers::control());
    assert_eq!(app.current_tab, Tab::Logs);
    press(&mut app, KeyCode::Char('1'), KeyModifiers::control());
    assert_eq!(app.current_tab, Tab::Chat);
}

#[test]
fn keys_handle_key_ctrl_backslash_toggles_tab_bar() {
    let mut app = App::new();
    assert!(app.tab_bar_visible);
    press(&mut app, KeyCode::Char('\\'), KeyModifiers::control());
    assert!(!app.tab_bar_visible);
    press(&mut app, KeyCode::Char('\\'), KeyModifiers::control());
    assert!(app.tab_bar_visible);
}

#[test]
fn keys_handle_key_v_toggles_log_verbose_in_logs_tab() {
    let mut app = App::new();
    app.current_tab = Tab::Logs;
    app.logs.scroll_offset = 5;
    press(&mut app, KeyCode::Char('v'), KeyModifiers::none());
    assert!(app.logs.verbose);
    assert_eq!(app.logs.scroll_offset, 0);
    press(&mut app, KeyCode::Char('v'), KeyModifiers::none());
    assert!(!app.logs.verbose);
}

#[test]
fn keys_handle_key_pageup_pagedown_in_chat_tab() {
    let mut app = App::new();
    press(&mut app, KeyCode::PageUp, KeyModifiers::none());
    assert_eq!(app.chat.scroll_offset, 10);
    press(&mut app, KeyCode::PageDown, KeyModifiers::none());
    assert_eq!(app.chat.scroll_offset, 0);
    press(&mut app, KeyCode::PageDown, KeyModifiers::none());
    assert_eq!(app.chat.scroll_offset, 0);
}

#[test]
fn keys_handle_key_pageup_pagedown_in_logs_tab() {
    let mut app = App::new();
    app.current_tab = Tab::Logs;
    app.logs.auto_scroll = true;
    press(&mut app, KeyCode::PageUp, KeyModifiers::none());
    assert_eq!(app.logs.scroll_offset, 10);
    assert!(!app.logs.auto_scroll);
    press(&mut app, KeyCode::PageDown, KeyModifiers::none());
    assert_eq!(app.logs.scroll_offset, 0);
    assert!(app.logs.auto_scroll);
}

#[test]
fn keys_handle_key_pageup_pagedown_in_board_tab_are_noop() {
    let mut app = App::new();
    app.current_tab = Tab::Board;
    press(&mut app, KeyCode::PageUp, KeyModifiers::none());
    assert_eq!(app.chat.scroll_offset, 0);
    assert_eq!(app.logs.scroll_offset, 0);
    press(&mut app, KeyCode::PageDown, KeyModifiers::none());
    assert_eq!(app.chat.scroll_offset, 0);
    assert_eq!(app.logs.scroll_offset, 0);
}

#[test]
fn keys_handle_key_up_down_in_logs_tab() {
    let mut app = App::new();
    app.current_tab = Tab::Logs;
    app.logs.auto_scroll = true;
    press(&mut app, KeyCode::Up, KeyModifiers::none());
    assert_eq!(app.logs.scroll_offset, 1);
    assert!(!app.logs.auto_scroll);
    press(&mut app, KeyCode::Down, KeyModifiers::none());
    assert_eq!(app.logs.scroll_offset, 0);
    assert!(app.logs.auto_scroll);
}

#[test]
fn keys_handle_key_up_down_in_chat_tab_with_nonempty_input_are_noop() {
    let mut app = App::new();
    app.chat.input = "typing".into();
    app.chat.cursor_pos = 6;
    app.chat.scroll_offset = 2;
    press(&mut app, KeyCode::Up, KeyModifiers::none());
    assert_eq!(app.chat.scroll_offset, 2);
    press(&mut app, KeyCode::Down, KeyModifiers::none());
    assert_eq!(app.chat.scroll_offset, 2);
}

#[test]
fn keys_handle_key_left_right_home_end_cursor_movement() {
    let mut app = App::new();
    app.chat.input = "hello".into();
    app.chat.cursor_pos = 5;
    press(&mut app, KeyCode::Left, KeyModifiers::none());
    assert_eq!(app.chat.cursor_pos, 4);
    press(&mut app, KeyCode::Right, KeyModifiers::none());
    assert_eq!(app.chat.cursor_pos, 5);
    press(&mut app, KeyCode::Right, KeyModifiers::none());
    assert_eq!(app.chat.cursor_pos, 5); // at the end: nothing happens
    press(&mut app, KeyCode::Home, KeyModifiers::none());
    assert_eq!(app.chat.cursor_pos, 0);
    press(&mut app, KeyCode::Left, KeyModifiers::none());
    assert_eq!(app.chat.cursor_pos, 0);
    press(&mut app, KeyCode::End, KeyModifiers::none());
    assert_eq!(app.chat.cursor_pos, 5);
}

#[test]
fn keys_handle_key_delete_removes_char_at_cursor() {
    let mut app = App::new();
    app.chat.input = "abc".into();
    app.chat.cursor_pos = 0;
    press(&mut app, KeyCode::Delete, KeyModifiers::none());
    assert_eq!(app.chat.input, "bc");
    assert_eq!(app.chat.cursor_pos, 0);
}

#[test]
fn keys_handle_key_enter_with_empty_input_is_noop() {
    let mut app = App::new();
    let initial_lines = app.chat.lines.len();
    assert!(matches!(enter(&mut app), KeyEffect::Continue));
    assert_eq!(app.chat.lines.len(), initial_lines);
    assert!(!app.agent_busy);
}

#[test]
fn keys_handle_key_enter_when_not_busy_sets_agent_busy() {
    let mut app = App::new();
    app.chat.input = "hello there".into();
    app.agent_busy = false;
    match enter(&mut app) {
        KeyEffect::AskAgent(text) => assert_eq!(text, "hello there"),
        _ => panic!("expected the message to go to the agent"),
    }
    assert!(app.agent_busy);
    assert!(app.chat.lines.iter().any(|l| matches!(l, ChatLine::User(t) if t == "hello there")));
}

#[test]
fn keys_handle_key_unknown_key_hits_default_branch() {
    let mut app = App::new();
    assert!(!quits(&press(&mut app, KeyCode::F(1), KeyModifiers::none())));
}

#[test]
fn keys_handle_key_busy_chat_does_not_send_to_agent() {
    let mut app = App::new();
    app.chat.input = "hello".into();
    app.chat.cursor_pos = 5;
    app.agent_busy = true;
    let effect = enter(&mut app);
    assert!(!quits(&effect));
    assert!(matches!(effect, KeyEffect::Continue));
    assert!(has_system(&app, |t| t == "Agent is busy..."));
}

#[test]
fn commands_handle_key_invalid_task_usage() {
    let mut app = App::new();
    app.chat.input = "/task".into();
    assert!(!quits(&enter(&mut app)));
    assert!(has_system(&app, |t| t == "Usage: /task \"description\""));
}

#[test]
fn commands_handle_key_quit_command_sets_should_quit() {
    let mut app = App::new();
    app.chat.input = "/quit".into();
    assert!(quits(&enter(&mut app)));
    assert!(app.should_quit);

    let mut app2 = App::new();
    app2.chat.input = "/q".into();
    assert!(quits(&enter(&mut app2)));
    assert!(app2.should_quit);
}

#[test]
fn commands_handle_key_task_with_empty_title_shows_usage() {
    let mut app = App::new();
    app.chat.input = "/task \"\"".into();
    enter(&mut app);
    assert!(has_system(&app, |t| t == "Usage: /task \"description\""));
}

fn open_item(id: i64, title: &str) -> WorkItem {
    WorkItem {
        id,
        title: title.into(),
        description: String::new(),
        created_by: "creator".into(),
        status: Status::Open,
        priority: Priority::P1,
        tags: Vec::new(),
        claimed_by: None,
    }
}

#[test]
fn commands_handle_key_board_command_refreshes_items_and_pushes_system_line() {
    let mut app = App::new();
    app.chat.input = "/board".into();
    let effect = enter(&mut app);
    assert!(!quits(&effect));
    assert!(matches!(effect, KeyEffect::ShowBoard));
    // The UI loop lists the board (one open item) and shows it.
    show_board_summary(&mut app, vec![open_item(1, "Open item")]);
    assert_eq!(app.board.items.len(), 1);
    assert!(has_system(&app, |t| t.starts_with("Board:")));
}

#[test]
fn commands_handle_key_board_refreshes_on_board_command() {
    let mut app = App::new();
    app.chat.input = "/board".into();
    assert!(matches!(enter(&mut app), KeyEffect::ShowBoard));
    show_board_summary(&mut app, Vec::new());
    assert!(has_system(&app, |t| t.contains("Board:")));
}

#[test]
fn enter_task_command_hands_the_title_on_without_the_agent() {
    let mut app = App::new();
    app.chat.input = "/task \"implement feature\"".into();
    app.agent_busy = true;
    match enter(&mut app) {
        KeyEffect::PostTask(title) => assert_eq!(title, "implement feature"),
        _ => panic!("expected the task to be posted"),
    }
    assert!(!app.should_quit);
    assert!(app.agent_busy);
    // The UI loop posts it as item 1.
    task_posted(&mut app, 1, "implement feature");
    assert!(has_system(&app, |t| t.contains("posted")));
}

#[test]
fn keys_handle_key_enter_submits_trimmed_input() {
    let mut app = App::new();
    for c in " hi ".chars() {
        press(&mut app, KeyCode::Char(c), KeyModifiers::none());
    }
    match enter(&mut app) {
        KeyEffect::AskAgent(text) => assert_eq!(text, "hi"),
        _ => panic!("expected the message to go to the agent"),
    }
    assert_eq!(app.chat.input, "");
    assert_eq!(app.chat.cursor_pos, 0);
}
