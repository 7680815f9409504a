use opengoose::key_command::{dispatch, KeyCode, KeyCommand, KeyContext, KeyEvent, KeyModifiers};
use opengoose::tui_app::Tab;

fn ctx(tab: Tab, chat_input_empty: bool) -> KeyContext {
    KeyContext {
        current_tab: tab,
        chat_input_empty,
    }
}

// ── Global shortcuts ──

#[test]
fn ctrl_c_quits() {
    let cmd = dispatch(
        KeyEvent::new(KeyCode::Char('c'), KeyModifiers::control()),
        &ctx(Tab::Chat, true),
    );
    assert_eq!(cmd, Some(KeyCommand::Quit));
}

#[test]
fn ctrl_1_2_3_jump_to_tabs() {
    assert_eq!(
        dispatch(
            KeyEvent::new(KeyCode::Char('1'), KeyModifiers::control()),
            &ctx(Tab::Logs, true),
        ),
        Some(KeyCommand::GoToTab(Tab::Chat))
    );
    assert_eq!(
        dispatch(
            KeyEvent::new(KeyCode::Char('2'), KeyModifiers::control()),
            &ctx(Tab::Chat, true),
        ),
        Some(KeyCommand::GoToTab(Tab::Board))
    );
    assert_eq!(
        dispatch(
            KeyEvent::new(KeyCode::Char('3'), KeyModifiers::control()),
            &ctx(Tab::Chat, true),
        ),
        Some(KeyCommand::GoToTab(Tab::Logs))
    );
}

#[test]
fn tab_and_backtab_cycle() {
    assert_eq!(
        dispatch(
            KeyEvent::new(KeyCode::Tab, KeyModifiers::none()),
            &ctx(Tab::Chat, true),
        ),
        Some(KeyCommand::TabNext)
    );
    assert_eq!(
        dispatch(
            KeyEvent::new(KeyCode::BackTab, KeyModifiers::shift()),
            &ctx(Tab::Chat, true),
        ),
        Some(KeyCommand::TabPrev)
    );
}

#[test]
fn ctrl_backslash_toggles_tab_bar() {
    assert_eq!(
        dispatch(
            KeyEvent::new(KeyCode::Char('\\'), KeyModifiers::control()),
            &ctx(Tab::Chat, true),
        ),
        Some(KeyCommand::ToggleTabBar)
    );
}

// ── Scroll ──

#[test]
fn up_down_scroll_in_chat_when_input_empty() {
    assert_eq!(
        dispatch(
            KeyEvent::new(KeyCode::Up, KeyModifiers::none()),
            &ctx(Tab::Chat, true),
        ),
        Some(KeyCommand::ScrollUp)
    );
    assert_eq!(
        dispatch(
            KeyEvent::new(KeyCode::Down, KeyModifiers::none()),
            &ctx(Tab::Chat, true),
        ),
        Some(KeyCommand::ScrollDown)
    );
}

#[test]
fn up_down_noop_in_chat_when_input_nonempty() {
    assert_eq!(
        dispatch(
            KeyEvent::new(KeyCode::Up, KeyModifiers::none()),
            &ctx(Tab::Chat, false),
        ),
        None
    );
    assert_eq!(
        dispatch(
            KeyEvent::new(KeyCode::Down, KeyModifiers::none()),
            &ctx(Tab::Chat, false),
        ),
        None
    );
}

#[test]
fn up_down_scroll_in_logs() {
    assert_eq!(
        dispatch(
            KeyEvent::new(KeyCode::Up, KeyModifiers::none()),
            &ctx(Tab::Logs, true),
        ),
        Some(KeyCommand::ScrollUp)
    );
    assert_eq!(
        dispatch(
            KeyEvent::new(KeyCode::Down, KeyModifiers::none()),
            &ctx(Tab::Logs, true),
        ),
        Some(KeyCommand::ScrollDown)
    );
}

#[test]
fn pageup_pagedown_in_chat_and_logs() {
    for tab in [Tab::Chat, Tab::Logs] {
        assert_eq!(
            dispatch(
                KeyEvent::new(KeyCode::PageUp, KeyModifiers::none()),
                &ctx(tab, true),
            ),
            Some(KeyCommand::PageUp)
        );
        assert_eq!(
            dispatch(
                KeyEvent::new(KeyCode::PageDown, KeyModifiers::none()),
                &ctx(tab, true),
            ),
            Some(KeyCommand::PageDown)
        );
    }
}

#[test]
fn pageup_pagedown_noop_in_board() {
    assert_eq!(
        dispatch(
            KeyEvent::new(KeyCode::PageUp, KeyModifiers::none()),
            &ctx(Tab::Board, true),
        ),
        None
    );
    assert_eq!(
        dispatch(
            KeyEvent::new(KeyCode::PageDown, KeyModifiers::none()),
            &ctx(Tab::Board, true),
        ),
        None
    );
}

// ── Chat editing ──

#[test]
fn chat_enter_submits() {
    assert_eq!(
        dispatch(
            KeyEvent::new(KeyCode::Enter, KeyModifiers::none()),
            &ctx(Tab::Chat, true),
        ),
        Some(KeyCommand::Submit)
    );
}

#[test]
fn chat_char_inserts() {
    assert_eq!(
        dispatch(
            KeyEvent::new(KeyCode::Char('a'), KeyModifiers::none()),
            &ctx(Tab::Chat, true),
        ),
        Some(KeyCommand::InsertChar('a'))
    );
    // Shift chars also insert
    assert_eq!(
        dispatch(
            KeyEvent::new(KeyCode::Char('A'), KeyModifiers::shift()),
            &ctx(Tab::Chat, true),
        ),
        Some(KeyCommand::InsertChar('A'))
    );
}

#[test]
fn chat_backspace_and_delete() {
    assert_eq!(
        dispatch(
            KeyEvent::new(KeyCode::Backspace, KeyModifiers::none()),
            &ctx(Tab::Chat, false),
        ),
        Some(KeyCommand::Backspace)
    );
    assert_eq!(
        dispatch(
            KeyEvent::new(KeyCode::Delete, KeyModifiers::none()),
            &ctx(Tab::Chat, false),
        ),
        Some(KeyCommand::Delete)
    );
}

#[test]
fn chat_cursor_movement() {
    assert_eq!(
        dispatch(
            KeyEvent::new(KeyCode::Left, KeyModifiers::none()),
            &ctx(Tab::Chat, false),
        ),
        Some(KeyCommand::CursorLeft)
    );
    assert_eq!(
        dispatch(
            KeyEvent::new(KeyCode::Right, KeyModifiers::none()),
            &ctx(Tab::Chat, false),
        ),
        Some(KeyCommand::CursorRight)
    );
    assert_eq!(
        dispatch(
            KeyEvent::new(KeyCode::Home, KeyModifiers::none()),
            &ctx(Tab::Chat, false),
        ),
        Some(KeyCommand::CursorHome)
    );
    assert_eq!(
        dispatch(
            KeyEvent::new(KeyCode::End, KeyModifiers::none()),
            &ctx(Tab::Chat, false),
        ),
        Some(KeyCommand::CursorEnd)
    );
}

// ── Logs ──

#[test]
fn logs_v_toggles_verbose() {
    assert_eq!(
        dispatch(
            KeyEvent::new(KeyCode::Char('v'), KeyModifiers::none()),
            &ctx(Tab::Logs, true),
        ),
        Some(KeyCommand::ToggleLogVerbose)
    );
}

#[test]
fn unknown_key_returns_none() {
    assert_eq!(
        dispatch(
            KeyEvent::new(KeyCode::F(1), KeyModifiers::none()),
            &ctx(Tab::Chat, true),
        ),
        None
    );
}

// ── Board tab ignores most keys ──

#[test]
fn board_tab_ignores_typing() {
    assert_eq!(
        dispatch(
            KeyEvent::new(KeyCode::Char('a'), KeyModifiers::none()),
            &ctx(Tab::Board, true),
        ),
        None
    );
    assert_eq!(
        dispatch(
            KeyEvent::new(KeyCode::Enter, KeyModifiers::none()),
            &ctx(Tab::Board, true),
        ),
        None
    );
}

#[test]
fn global_shortcuts_work_on_any_tab() {
    for tab in Tab::ALL {
        assert_eq!(
            dispatch(
                KeyEvent::new(KeyCode::Char('c'), KeyModifiers::control()),
                &ctx(tab, true),
            ),
            Some(KeyCommand::Quit),
            "Ctrl+C should quit on {tab:?}"
        );
        assert_eq!(
            dispatch(
                KeyEvent::new(KeyCode::Tab, KeyModifiers::none()),
                &ctx(tab, true),
            ),
            Some(KeyCommand::TabNext),
            "Tab should cycle on {tab:?}"
        );
    }
}

#[test]
fn ctrl_c_quits_even_while_typing() {
    assert_eq!(
        dispatch(KeyEvent::new(KeyCode::Char('c'), KeyModifiers::control()), &ctx(Tab::Chat, false)),
        Some(KeyCommand::Quit)
    );
}

#[test]
fn esc_and_other_keys_do_nothing() {
    for tab in Tab::ALL {
        assert_eq!(dispatch(KeyEvent::new(KeyCode::Esc, KeyModifiers::none()), &ctx(tab, true)), None);
    }
}

#[test]
fn alt_char_does_not_insert() {
    assert_eq!(
        dispatch(KeyEvent::new(KeyCode::Char('a'), KeyModifiers::from_bits(4)), &ctx(Tab::Chat, true)),
        None
    );
}

#[test]
fn logs_ignore_other_letters() {
    assert_eq!(
        dispatch(KeyEvent::new(KeyCode::Char('x'), KeyModifiers::none()), &ctx(Tab::Logs, true)),
        None
    );
}
