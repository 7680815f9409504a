//! Key bindings of the terminal UI: which command a key press means, given
//! the current tab and whether the input line is empty.

use vstd::prelude::*;

use crate::tui_app::Tab;

verus! {

/// A key, as the terminal reports it.
#[derive(Debug, Clone, Copy, PartialEq, Eq, Structural)]
pub enum KeyCode {
    Char(char),
    Enter,
    Tab,
    BackTab,
    Backspace,
    Delete,
    Left,
    Right,
    Up,
    Down,
    Home,
    End,
    PageUp,
    PageDown,
    Esc,
    F(u8),
    /// Any other key (insert, media keys, and so on).
    Other,
}

/// The modifier keys held with a key, as a set of bits.
#[derive(Debug, Clone, Copy, PartialEq, Eq, Structural)]
pub struct KeyModifiers {
    pub bits: u8,
}

/// The bit of the Shift key.
pub const SHIFT_BIT: u8 = 1;
/// The bit of the Control key.
pub const CONTROL_BIT: u8 = 2;
/// The bit of the Alt key.
pub const ALT_BIT: u8 = 4;
/// The bit of the Super key.
pub const SUPER_BIT: u8 = 8;
/// The bit of the Hyper key.
pub const HYPER_BIT: u8 = 16;
/// The bit of the Meta key.
pub const META_BIT: u8 = 32;

impl KeyModifiers {
    /// The modifiers whose bits are set in `bits`.
    pub fn from_bits(bits: u8) -> (res: KeyModifiers)
        ensures
            res.bits == bits,
    {
        KeyModifiers { bits }
    }

    /// No modifier held.
    pub fn none() -> (res: KeyModifiers)
        ensures
            res.bits == 0,
    {
        KeyModifiers { bits: 0 }
    }

    /// Shift alone.
    pub fn shift() -> (res: KeyModifiers)
        ensures
            res.bits == SHIFT_BIT,
    {
        KeyModifiers { bits: SHIFT_BIT }
    }

    /// Control alone.
    pub fn control() -> (res: KeyModifiers)
        ensures
            res.bits == CONTROL_BIT,
    {
        KeyModifiers { bits: CONTROL_BIT }
    }
}

/// A key press: the key and the modifiers held with it.
#[derive(Debug, Clone, Copy, PartialEq, Eq, Structural)]
pub struct KeyEvent {
    pub code: KeyCode,
    pub modifiers: KeyModifiers,
}

impl KeyEvent {
    /// A key press of `code` with `modifiers`.
    pub fn new(code: KeyCode, modifiers: KeyModifiers) -> (res: KeyEvent)
        ensures
            res.code == code,
            res.modifiers == modifiers,
    {
        KeyEvent { code, modifiers }
    }
}

/// Every command a key can trigger.
#[derive(Debug, Clone, Copy, PartialEq, Eq, Structural)]
pub enum KeyCommand {
    /// Ctrl+C: quit.
    Quit,
    /// Ctrl+1/2/3: jump to a tab.
    GoToTab(Tab),
    /// Tab: next tab.
    TabNext,
    /// Shift+Tab: previous tab.
    TabPrev,
    /// Ctrl+\: show or hide the tab bar.
    ToggleTabBar,
    /// Scroll up one line.
    ScrollUp,
    /// Scroll down one line.
    ScrollDown,
    /// Scroll up a page.
    PageUp,
    /// Scroll down a page.
    PageDown,
    /// Enter: submit the input.
    Submit,
    /// Insert a character at the cursor.
    InsertChar(char),
    /// Delete the character before the cursor.
    Backspace,
    /// Delete the character at the cursor.
    Delete,
    CursorLeft,
    CursorRight,
    CursorHome,
    CursorEnd,
    /// Show all log entries, or only the structured ones.
    ToggleLogVerbose,
}

/// What the key handler needs to know to decide.
pub struct KeyContext {
    pub current_tab: Tab,
    pub chat_input_empty: bool,
}

/// The Chat tab's editing keys.
pub open spec fn chat_binding(key: KeyEvent) -> Option<KeyCommand> {
    match key.code {
        KeyCode::Enter => Some(KeyCommand::Submit),
        KeyCode::Char(c) => if key.modifiers.bits == 0 || key.modifiers.bits
            == SHIFT_BIT {
            Some(KeyCommand::InsertChar(c))
        } else {
            None
        },
        KeyCode::Backspace => Some(KeyCommand::Backspace),
        KeyCode::Delete => Some(KeyCommand::Delete),
        KeyCode::Left => Some(KeyCommand::CursorLeft),
        KeyCode::Right => Some(KeyCommand::CursorRight),
        KeyCode::Home => Some(KeyCommand::CursorHome),
        KeyCode::End => Some(KeyCommand::CursorEnd),
        _ => None,
    }
}

/// The Logs tab's keys.
pub open spec fn logs_binding(key: KeyEvent) -> Option<KeyCommand> {
    match key.code {
        KeyCode::Char(c) => if c == 'v' {
            Some(KeyCommand::ToggleLogVerbose)
        } else {
            None
        },
        _ => None,
    }
}

/// The key map: global shortcuts first, then scrolling (per tab), then the
/// current tab's own keys.
pub open spec fn binding(key: KeyEvent, ctx: KeyContext) -> Option<KeyCommand> {
    let ctrl = key.modifiers.bits == CONTROL_BIT;
    let none = key.modifiers.bits == 0;
    if ctrl && key.code == KeyCode::Char('c') {
        Some(KeyCommand::Quit)
    } else if ctrl && key.code == KeyCode::Char('1') {
        Some(KeyCommand::GoToTab(Tab::Chat))
    } else if ctrl && key.code == KeyCode::Char('2') {
        Some(KeyCommand::GoToTab(Tab::Board))
    } else if ctrl && key.code == KeyCode::Char('3') {
        Some(KeyCommand::GoToTab(Tab::Logs))
    } else if none && key.code == KeyCode::Tab {
        Some(KeyCommand::TabNext)
    } else if key.code == KeyCode::BackTab {
        Some(KeyCommand::TabPrev)
    } else if ctrl && key.code == KeyCode::Char('\\') {
        Some(KeyCommand::ToggleTabBar)
    } else if none && (key.code == KeyCode::Up || key.code == KeyCode::Down) {
        let cmd = if key.code == KeyCode::Up {
            KeyCommand::ScrollUp
        } else {
            KeyCommand::ScrollDown
        };
        if (ctx.current_tab == Tab::Chat && ctx.chat_input_empty) || ctx.current_tab
            == Tab::Logs {
            Some(cmd)
        } else {
            None
        }
    } else if key.code == KeyCode::PageUp || key.code == KeyCode::PageDown {
        let cmd = if key.code == KeyCode::PageUp {
            KeyCommand::PageUp
        } else {
            KeyCommand::PageDown
        };
        if ctx.current_tab == Tab::Board {
            None
        } else {
            Some(cmd)
        }
    } else {
        match ctx.current_tab {
            Tab::Chat => chat_binding(key),
            Tab::Logs => logs_binding(key),
            Tab::Board => None,
        }
    }
}

/// The command a key press means in this context, if any.
pub fn dispatch(key: KeyEvent, ctx: &KeyContext) -> (res: Option<KeyCommand>)
    ensures
        res == binding(key, *ctx),
{
    let ctrl = key.modifiers.bits == CONTROL_BIT;
    let none = key.modifiers.bits == 0;
    match key.code {
        KeyCode::Char('c') if ctrl => return Some(KeyCommand::Quit),
        KeyCode::Char('1') if ctrl => return Some(KeyCommand::GoToTab(Tab::Chat)),
        KeyCode::Char('2') if ctrl => return Some(KeyCommand::GoToTab(Tab::Board)),
        KeyCode::Char('3') if ctrl => return Some(KeyCommand::GoToTab(Tab::Logs)),
        KeyCode::Tab if none => return Some(KeyCommand::TabNext),
        KeyCode::BackTab => return Some(KeyCommand::TabPrev),
        KeyCode::Char('\\') if ctrl => return Some(KeyCommand::ToggleTabBar),
        KeyCode::Up if none => {
            return match ctx.current_tab {
                Tab::Chat if ctx.chat_input_empty => Some(KeyCommand::ScrollUp),
                Tab::Logs => Some(KeyCommand::ScrollUp),
                _ => None,
            };
        },
        KeyCode::Down if none => {
            return match ctx.current_tab {
                Tab::Chat if ctx.chat_input_empty => Some(KeyCommand::ScrollDown),
                Tab::Logs => Some(KeyCommand::ScrollDown),
                _ => None,
            };
        },
        KeyCode::PageUp => {
            return match ctx.current_tab {
                Tab::Chat | Tab::Logs => Some(KeyCommand::PageUp),
                _ => None,
            };
        },
        KeyCode::PageDown => {
            return match ctx.current_tab {
                Tab::Chat | Tab::Logs => Some(KeyCommand::PageDown),
                _ => None,
            };
        },
        _ => {},
    }
    match ctx.current_tab {
        Tab::Chat => dispatch_chat(key),
        Tab::Logs => dispatch_logs(key),
        Tab::Board => None,
    }
}

/// The Chat tab's editing keys.
fn dispatch_chat(key: KeyEvent) -> (res: Option<KeyCommand>)
    ensures
        res == chat_binding(key),
{
    match key.code {
        KeyCode::Enter => Some(KeyCommand::Submit),
        KeyCode::Char(c) if key.modifiers.bits == 0 || key.modifiers.bits == SHIFT_BIT => Some(
            KeyCommand::InsertChar(c),
        ),
        KeyCode::Backspace => Some(KeyCommand::Backspace),
        KeyCode::Delete => Some(KeyCommand::Delete),
        KeyCode::Left => Some(KeyCommand::CursorLeft),
        KeyCode::Right => Some(KeyCommand::CursorRight),
        KeyCode::Home => Some(KeyCommand::CursorHome),
        KeyCode::End => Some(KeyCommand::CursorEnd),
        _ => None,
    }
}

/// The Logs tab's keys.
fn dispatch_logs(key: KeyEvent) -> (res: Option<KeyCommand>)
    ensures
        res == logs_binding(key),
{
    match key.code {
        KeyCode::Char('v') => Some(KeyCommand::ToggleLogVerbose),
        _ => None,
    }
}

/// Ctrl+C quits and Tab moves to the next tab whatever tab is shown and
/// whatever the input holds.
pub proof fn law_global_shortcuts(tab: Tab, input_empty: bool)
    ensures
        binding(
            KeyEvent { code: KeyCode::Char('c'), modifiers: KeyModifiers { bits: CONTROL_BIT } },
            KeyContext { current_tab: tab, chat_input_empty: input_empty },
        ) == Some(KeyCommand::Quit),
        binding(
            KeyEvent { code: KeyCode::Tab, modifiers: KeyModifiers { bits: 0 } },
            KeyContext { current_tab: tab, chat_input_empty: input_empty },
        ) == Some(KeyCommand::TabNext),
{
}

/// The Board tab takes no typing: a plain character or Enter does nothing there.
pub proof fn law_board_ignores_typing(c: char, input_empty: bool)
    ensures
        binding(
            KeyEvent { code: KeyCode::Char(c), modifiers: KeyModifiers { bits: 0 } },
            KeyContext { current_tab: Tab::Board, chat_input_empty: input_empty },
        ) is None,
        binding(
            KeyEvent { code: KeyCode::Enter, modifiers: KeyModifiers { bits: 0 } },
            KeyContext { current_tab: Tab::Board, chat_input_empty: input_empty },
        ) is None,
{
}

} // verus!
