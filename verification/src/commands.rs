//! Slash commands typed into the chat input: `/board`, `/task`, `/quit`.

use vstd::prelude::*;

use crate::text::{chars_of, has_prefix, str_is, trim, trim_bounds, trim_char, trim_char_bounds};

verus! {

/// A parsed chat input.
#[derive(Debug, PartialEq, Eq)]
pub enum Command<'a> {
    /// `/board`: show the board summary.
    Board,
    /// `/task <title>`: post a task with this title.
    Task(&'a str),
    /// `/task` without a title.
    TaskUsage,
    /// `/quit` or `/q`.
    Quit,
    /// Anything else: a message for the agent.
    Chat(&'a str),
}

/// The title of `/task <title>`: the rest of the input, trimmed of white
/// space and then of surrounding double quotes.
pub open spec fn task_title(input: Seq<char>) -> Seq<char> {
    trim_char(trim(input.skip(6)), '"')
}

/// The kind of command an input is, and the text it carries.
pub open spec fn command_of(input: Seq<char>) -> (u8, Seq<char>) {
    if input == "/board"@ {
        (0, Seq::empty())
    } else if input == "/task"@ {
        (2, Seq::empty())
    } else if has_prefix(input, "/task "@) {
        if task_title(input).len() == 0 {
            (2, Seq::empty())
        } else {
            (1, task_title(input))
        }
    } else if input == "/quit"@ || input == "/q"@ {
        (3, Seq::empty())
    } else {
        (4, input)
    }
}

/// The kind number and text of a parsed command.
pub open spec fn command_view(c: Command) -> (u8, Seq<char>) {
    match c {
        Command::Board => (0, Seq::empty()),
        Command::Task(t) => (1, t@),
        Command::TaskUsage => (2, Seq::empty()),
        Command::Quit => (3, Seq::empty()),
        Command::Chat(t) => (4, t@),
    }
}

/// Reads a chat input as a command.
pub fn parse_command(input: &str) -> (res: Command<'_>)
    ensures
        command_view(res) == command_of(input@),
{
    if str_is(input, "/board") {
        return Command::Board;
    }
    if str_is(input, "/task") {
        return Command::TaskUsage;
    }
    let cs = chars_of(input);
    if crate::text::starts_with_str(&cs, "/task ") {
        assert("/task "@.len() == 6) by {
            reveal_strlit("/task ");
        }
        let (a, b) = trim_bounds(&cs, 6, cs.len());
        let (c, d) = trim_char_bounds(&cs, a, b, '"');
        assert(cs@.skip(6) =~= cs@.subrange(6, cs@.len() as int));
        if c == d {
            return Command::TaskUsage;
        }
        let title = input.substring_char(c, d);
        return Command::Task(title);
    }
    if str_is(input, "/quit") || str_is(input, "/q") {
        return Command::Quit;
    }
    Command::Chat(input)
}

} // verus!
