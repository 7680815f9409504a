//! What a key command does to the UI: switching tabs, scrolling, editing
//! the input line and submitting it as a chat command, modelled as a step
//! of a state machine over the parts of the UI that keys can change.

use vstd::prelude::*;

use crate::commands::command_of;
use crate::key_command::{dispatch, KeyCommand, KeyContext, KeyEvent, binding};
use crate::tui_event::{agent_busy_text, handle_input, task_usage_text, InputAction};
use crate::text::{chars_of, insert_at, insert_char_at, remove_at, remove_char_at, string_of, trim};
use crate::tui_app::{clamp_cursor, tab_next, tab_prev, App, ChatLine, Tab};

verus! {

/// The parts of the UI that key commands change.
pub struct UiView {
    pub input: Seq<char>,
    pub cursor: int,
    pub chat_scroll: int,
    pub lines: Seq<ChatLine>,
    pub logs_scroll: int,
    pub logs_auto_scroll: bool,
    pub logs_verbose: bool,
    pub tab: Tab,
    pub tab_bar_visible: bool,
    pub should_quit: bool,
    pub agent_busy: bool,
}

/// The key-relevant view of the UI.
pub open spec fn ui_view(a: App) -> UiView {
    UiView {
        input: a.chat.input@,
        cursor: a.chat.cursor_pos as int,
        chat_scroll: a.chat.scroll_offset as int,
        lines: a.chat.lines@,
        logs_scroll: a.logs.scroll_offset as int,
        logs_auto_scroll: a.logs.auto_scroll,
        logs_verbose: a.logs.verbose,
        tab: a.current_tab,
        tab_bar_visible: a.tab_bar_visible,
        should_quit: a.should_quit,
        agent_busy: a.agent_busy,
    }
}

/// `x + d`, saturating at `usize::MAX`.
pub open spec fn sat_add(x: int, d: int) -> int {
    if x + d > usize::MAX {
        usize::MAX as int
    } else {
        x + d
    }
}

/// `x - d`, saturating at zero.
pub open spec fn sat_sub(x: int, d: int) -> int {
    if x - d < 0 {
        0
    } else {
        x - d
    }
}

/// Scrolling the current tab's view up (`up`) or down by `d` lines. The
/// chat scrolls freely; scrolling the logs up stops following new entries,
/// and scrolling them back to the bottom resumes it.
pub open spec fn scroll(v: UiView, up: bool, d: int) -> UiView {
    match v.tab {
        Tab::Chat => UiView {
            chat_scroll: if up {
                sat_add(v.chat_scroll, d)
            } else {
                sat_sub(v.chat_scroll, d)
            },
            ..v
        },
        Tab::Logs => if up {
            UiView { logs_scroll: sat_add(v.logs_scroll, d), logs_auto_scroll: false, ..v }
        } else {
            UiView {
                logs_scroll: sat_sub(v.logs_scroll, d),
                logs_auto_scroll: if sat_sub(v.logs_scroll, d) == 0 {
                    true
                } else {
                    v.logs_auto_scroll
                },
                ..v
            }
        },
        Tab::Board => v,
    }
}

/// One key command applied to the UI (`Submit` is described separately,
/// since it also hands the message on).
pub open spec fn step(v: UiView, cmd: KeyCommand) -> UiView {
    let n = v.input.len() as int;
    match cmd {
        KeyCommand::Quit => UiView { should_quit: true, ..v },
        KeyCommand::GoToTab(t) => UiView { tab: t, ..v },
        KeyCommand::TabNext => UiView { tab: tab_next(v.tab), ..v },
        KeyCommand::TabPrev => UiView { tab: tab_prev(v.tab), ..v },
        KeyCommand::ToggleTabBar => UiView { tab_bar_visible: !v.tab_bar_visible, ..v },
        KeyCommand::ScrollUp => scroll(v, true, 1),
        KeyCommand::ScrollDown => scroll(v, false, 1),
        KeyCommand::PageUp => scroll(v, true, 10),
        KeyCommand::PageDown => scroll(v, false, 10),
        KeyCommand::Submit => v,
        KeyCommand::InsertChar(c) => UiView {
            input: insert_at(v.input, if v.cursor < n { v.cursor } else { n }, c),
            cursor: v.cursor + 1,
            ..v
        },
        KeyCommand::Backspace => if v.cursor > 0 {
            UiView { input: remove_at(v.input, v.cursor - 1), cursor: v.cursor - 1, ..v }
        } else {
            v
        },
        KeyCommand::Delete => if v.cursor < n {
            UiView { input: remove_at(v.input, v.cursor), ..v }
        } else {
            v
        },
        KeyCommand::CursorLeft => UiView { cursor: sat_sub(v.cursor, 1), ..v },
        KeyCommand::CursorRight => if v.cursor < n {
            UiView { cursor: v.cursor + 1, ..v }
        } else {
            v
        },
        KeyCommand::CursorHome => UiView { cursor: 0, ..v },
        KeyCommand::CursorEnd => UiView { cursor: n, ..v },
        KeyCommand::ToggleLogVerbose => UiView {
            logs_verbose: !v.logs_verbose,
            logs_scroll: 0,
            ..v
        },
    }
}

/// What the UI loop must do after a key.
pub enum KeyEffect {
    /// Keep going.
    Continue,
    /// Leave the UI.
    Quit,
    /// `/board` was submitted: list the board and show its summary
    /// (`tui_event::show_board_summary`).
    ShowBoard,
    /// `/task <title>` was submitted: post the task for a worker.
    PostTask(String),
    /// A chat message was submitted while the agent was idle (it is now
    /// marked busy): send the message to the agent and stream its reply.
    AskAgent(String),
}

/// Inputs on which a command can run: backspace needs the cursor within
/// the input, and inserting needs room to move the cursor.
pub open spec fn can_execute(a: App, cmd: KeyCommand) -> bool {
    &&& cmd == KeyCommand::Backspace ==> a.chat.cursor_pos <= a.chat.input@.len()
    &&& cmd is InsertChar ==> a.chat.cursor_pos < usize::MAX
}

/// The key view right after a non-blank input was submitted, but for the
/// transcript: the input cleared, the cursor at its start and the chat
/// scrolled to the bottom.
pub open spec fn sent_view(before: App, after: App) -> UiView {
    UiView {
        input: Seq::empty(),
        cursor: 0,
        chat_scroll: 0,
        lines: after.chat.lines@,
        ..ui_view(before)
    }
}

/// The transcript after a submission: the trimmed input as the user's
/// line, followed by `extra` more lines.
pub open spec fn user_line_added(before: App, after: App, extra: int) -> bool {
    let n = before.chat.lines@.len() as int;
    &&& after.chat.lines@.len() == n + 1 + extra
    &&& after.chat.lines@.take(n) == before.chat.lines@
    &&& after.chat.lines@[n] is User
    &&& after.chat.lines@[n]->User_0@ == trim(before.chat.input@)
}

/// The transcript ends with the system line `text`.
pub open spec fn ends_with_system(a: App, text: Seq<char>) -> bool {
    &&& a.chat.lines@.len() > 0
    &&& a.chat.lines@.last() is System
    &&& a.chat.lines@.last()->System_0@ == text
}

/// What submitting the input does. A blank input changes nothing.
/// Otherwise the trimmed input is shown as the user's line, the input is
/// cleared, and the message is handled as `tui_event::handle_input` does:
/// `/board` and `/task <title>` are handed on, `/task` alone shows its
/// usage, `/quit` and `/q` quit, and a chat message goes to the agent when
/// it is idle (marking it busy) or is answered "Agent is busy..." when not.
pub open spec fn submitted(before: App, after: App, res: KeyEffect) -> bool {
    let t = trim(before.chat.input@);
    let (kind, arg) = command_of(t);
    if t.len() == 0 {
        res is Continue && ui_view(after) == ui_view(before)
    } else if kind == 0 {
        res is ShowBoard && ui_view(after) == sent_view(before, after) && user_line_added(
            before,
            after,
            0,
        )
    } else if kind == 1 {
        (res matches KeyEffect::PostTask(x) && x@ == arg) && ui_view(after) == sent_view(
            before,
            after,
        ) && user_line_added(before, after, 0)
    } else if kind == 2 {
        res is Continue && ui_view(after) == sent_view(before, after) && user_line_added(
            before,
            after,
            1,
        ) && ends_with_system(after, task_usage_text())
    } else if kind == 3 {
        res is Quit && ui_view(after) == UiView { should_quit: true, ..sent_view(before, after) }
            && user_line_added(before, after, 0)
    } else if !before.agent_busy {
        (res matches KeyEffect::AskAgent(x) && x@ == t) && ui_view(after) == UiView {
            agent_busy: true,
            ..sent_view(before, after)
        } && user_line_added(before, after, 0)
    } else {
        res is Continue && ui_view(after) == sent_view(before, after) && user_line_added(
            before,
            after,
            1,
        ) && ends_with_system(after, agent_busy_text())
    }
}

/// Applies a key command to the UI.
pub fn execute(cmd: KeyCommand, app: &mut App) -> (res: KeyEffect)
    requires
        can_execute(*old(app), cmd),
    ensures
        cmd != KeyCommand::Submit ==> ui_view(*final(app)) == step(ui_view(*old(app)), cmd),
        cmd != KeyCommand::Submit ==> (res is Quit <==> cmd == KeyCommand::Quit),
        cmd != KeyCommand::Submit ==> (res is Continue || res is Quit),
        cmd == KeyCommand::Submit ==> submitted(*old(app), *final(app), res),
        final(app).board == old(app).board,
        final(app).logs.entries == old(app).logs.entries,
{
    match cmd {
        KeyCommand::Quit => {
            app.should_quit = true;
            return KeyEffect::Quit;
        },
        KeyCommand::GoToTab(tab) => {
            app.current_tab = tab;
        },
        KeyCommand::TabNext => {
            app.current_tab = app.current_tab.next();
        },
        KeyCommand::TabPrev => {
            app.current_tab = app.current_tab.prev();
        },
        KeyCommand::ToggleTabBar => {
            app.tab_bar_visible = !app.tab_bar_visible;
        },
        KeyCommand::ScrollUp => scroll_exec(app, true, 1),
        KeyCommand::ScrollDown => scroll_exec(app, false, 1),
        KeyCommand::PageUp => scroll_exec(app, true, 10),
        KeyCommand::PageDown => scroll_exec(app, false, 10),
        KeyCommand::Submit => {
            match app.submit_input() {
                Some(text) => {
                    assert(app.chat.input@ =~= Seq::<char>::empty());
                    let ghost sent = *app;
                    let action = handle_input(app, text.as_str());
                    proof {
                        let n = old(app).chat.lines@.len() as int;
                        assert(sent.chat.lines@.take(n) =~= old(app).chat.lines@);
                        if app.chat.lines@.len() == sent.chat.lines@.len() + 1 {
                            assert(app.chat.lines@.take(n) =~= old(app).chat.lines@);
                            assert(app.chat.lines@[n] == app.chat.lines@.drop_last()[n]);
                        }
                    }
                    return match action {
                        InputAction::Nothing => KeyEffect::Continue,
                        InputAction::Quit => KeyEffect::Quit,
                        InputAction::ShowBoard => KeyEffect::ShowBoard,
                        InputAction::PostTask(t) => KeyEffect::PostTask(t),
                        InputAction::AskAgent(t) => KeyEffect::AskAgent(t),
                    };
                },
                None => {},
            }
        },
        KeyCommand::InsertChar(c) => {
            let cs = chars_of(app.chat.input.as_str());
            let k = if app.chat.cursor_pos < cs.len() {
                app.chat.cursor_pos
            } else {
                cs.len()
            };
            let ns = insert_char_at(&cs, k, c);
            app.chat.input = string_of(&ns);
            app.chat.cursor_pos = app.chat.cursor_pos + 1;
        },
        KeyCommand::Backspace => {
            if app.chat.cursor_pos > 0 {
                let cs = chars_of(app.chat.input.as_str());
                app.chat.cursor_pos = app.chat.cursor_pos - 1;
                let ns = remove_char_at(&cs, app.chat.cursor_pos);
                app.chat.input = string_of(&ns);
            }
        },
        KeyCommand::Delete => {
            let cs = chars_of(app.chat.input.as_str());
            if app.chat.cursor_pos < cs.len() {
                let ns = remove_char_at(&cs, app.chat.cursor_pos);
                app.chat.input = string_of(&ns);
            }
        },
        KeyCommand::CursorLeft => {
            app.chat.cursor_pos = app.chat.cursor_pos.saturating_sub(1);
        },
        KeyCommand::CursorRight => {
            let n = app.char_count();
            if app.chat.cursor_pos < n {
                app.chat.cursor_pos = app.chat.cursor_pos + 1;
            }
        },
        KeyCommand::CursorHome => {
            app.chat.cursor_pos = 0;
        },
        KeyCommand::CursorEnd => {
            app.chat.cursor_pos = app.char_count();
        },
        KeyCommand::ToggleLogVerbose => {
            app.logs.verbose = !app.logs.verbose;
            app.logs.scroll_offset = 0;
        },
    }
    KeyEffect::Continue
}

fn scroll_exec(app: &mut App, up: bool, d: usize)
    requires
        d == 1 || d == 10,
    ensures
        ui_view(*final(app)) == scroll(ui_view(*old(app)), up, d as int),
        final(app).board == old(app).board,
        final(app).logs.entries == old(app).logs.entries,
{
    match app.current_tab {
        Tab::Chat => {
            app.chat.scroll_offset = if up {
                app.chat.scroll_offset.saturating_add(d)
            } else {
                app.chat.scroll_offset.saturating_sub(d)
            };
        },
        Tab::Logs => {
            if up {
                app.logs.scroll_offset = app.logs.scroll_offset.saturating_add(d);
                app.logs.auto_scroll = false;
            } else {
                app.logs.scroll_offset = app.logs.scroll_offset.saturating_sub(d);
                if app.logs.scroll_offset == 0 {
                    app.logs.auto_scroll = true;
                }
            }
        },
        Tab::Board => {},
    }
}

/// Handles one key press: looks up its command for the current tab and
/// input, and applies it; an unbound key changes nothing. `Quit` is
/// returned exactly when the UI should be left (Ctrl+C, or `/quit` and
/// `/q` submitted); the other effects say what the UI loop must still do
/// with the board or the agent.
pub fn handle_key(key: KeyEvent, app: &mut App) -> (res: KeyEffect)
    requires
        binding(
            key,
            KeyContext {
                current_tab: old(app).current_tab,
                chat_input_empty: old(app).chat.input@.len() == 0,
            },
        ) matches Some(cmd) ==> can_execute(*old(app), cmd),
    ensures
        match binding(
            key,
            KeyContext {
                current_tab: old(app).current_tab,
                chat_input_empty: old(app).chat.input@.len() == 0,
            },
        ) {
            None => res is Continue && ui_view(*final(app)) == ui_view(*old(app)),
            Some(cmd) => {
                &&& cmd != KeyCommand::Submit ==> ui_view(*final(app)) == step(
                    ui_view(*old(app)),
                    cmd,
                ) && (res is Quit <==> cmd == KeyCommand::Quit) && (res is Continue || res is Quit)
                &&& cmd == KeyCommand::Submit ==> submitted(*old(app), *final(app), res)
            },
        },
        final(app).board == old(app).board,
        final(app).logs.entries == old(app).logs.entries,
{
    let empty = app.char_count() == 0;
    let ctx = KeyContext { current_tab: app.current_tab, chat_input_empty: empty };
    match dispatch(key, &ctx) {
        None => KeyEffect::Continue,
        Some(cmd) => execute(cmd, app),
    }
}

/// The cursor stays within the input: every key command keeps it between
/// the start and the end of the input line.
pub proof fn law_cursor_stays_in_input(v: UiView, cmd: KeyCommand)
    requires
        0 <= v.cursor <= v.input.len(),
        cmd != KeyCommand::Submit,
    ensures
        0 <= step(v, cmd).cursor <= step(v, cmd).input.len(),
{
}

/// Typing a character and then deleting it with backspace gives back the
/// input and the cursor as they were.
pub proof fn law_insert_then_backspace(v: UiView, c: char)
    requires
        0 <= v.cursor <= v.input.len(),
    ensures
        step(step(v, KeyCommand::InsertChar(c)), KeyCommand::Backspace) == v,
{
    let k = v.cursor;
    let s = insert_at(v.input, k, c);
    assert(remove_at(s, k) =~= v.input);
}

/// Going to the next tab and then to the previous one comes back to the
/// same tab, leaving everything else as it was.
pub proof fn law_tab_round_trip(v: UiView)
    ensures
        step(step(v, KeyCommand::TabNext), KeyCommand::TabPrev) == v,
        step(step(v, KeyCommand::TabPrev), KeyCommand::TabNext) == v,
{
}

/// Scrolling the chat up and then down by the same amount returns to the
/// same place, as long as scrolling up did not saturate.
pub proof fn law_chat_scroll_round_trip(v: UiView, page: bool)
    requires
        v.tab == Tab::Chat,
        0 <= v.chat_scroll,
        v.chat_scroll + 10 <= usize::MAX,
    ensures
        page ==> step(step(v, KeyCommand::PageUp), KeyCommand::PageDown) == v,
        !page ==> step(step(v, KeyCommand::ScrollUp), KeyCommand::ScrollDown) == v,
{
}

} // verus!
