//! The decisions of the terminal UI's event loop: what a submitted message
//! asks for, and how board snapshots, agent replies and posting results
//! change the UI. The loop itself (terminal, timers, agent stream, board
//! queries) runs outside the library and hands these functions its results.

use vstd::prelude::*;

use crate::commands::{command_of, parse_command, Command};
use crate::text::{decimal, int_decimal, push_decimal, push_i64, push_str, string_of};
use crate::tui_app::{
    count_status, is_agent_with, lines_after_agent_text, App, ChatLine, RigInfo, RigStatus,
    Status, WorkItem,
};

verus! {

/// A message from the agent task to the UI.
pub enum AgentMsg {
    /// A chunk of streamed reply text.
    Text(String),
    /// The reply is complete.
    Done,
}

/// What the event loop must do for a submitted message.
pub enum InputAction {
    /// Nothing more.
    Nothing,
    /// Leave the UI (`should_quit` is now set).
    Quit,
    /// List the board and show its summary (`show_board_summary`).
    ShowBoard,
    /// Post a task with this title for a worker to pick up.
    PostTask(String),
    /// Send this message to the agent and stream its reply.
    AskAgent(String),
}

/// The usage line for `/task`.
pub open spec fn task_usage_text() -> Seq<char> {
    "Usage: /task \"description\""@
}

/// The line shown when a message arrives while the agent is still replying.
pub open spec fn agent_busy_text() -> Seq<char> {
    "Agent is busy..."@
}

/// Handles a submitted message: `/board` asks for the board, `/task`
/// without a title shows its usage, `/task <title>` asks to post the task,
/// `/quit` marks the UI for quitting and asks to leave it, and anything else goes to the agent
/// unless it is still busy replying.
pub fn handle_input(app: &mut App, text: &str) -> (res: InputAction)
    ensures
        ({
            let (kind, arg) = command_of(text@);
            &&& kind == 0 ==> res is ShowBoard && *final(app) == *old(app)
            &&& kind == 1 ==> (res matches InputAction::PostTask(t) && t@ == arg) && *final(app)
                == *old(app)
            &&& kind == 2 ==> res is Nothing && final(app).chat.lines@.len() == old(
                app,
            ).chat.lines@.len() + 1 && final(app).chat.lines@.last() is System
                && final(app).chat.lines@.last()->System_0@ == task_usage_text()
                && final(app).chat.lines@.drop_last() == old(app).chat.lines@
                && final(app).agent_busy == old(app).agent_busy && final(app).should_quit == old(
                app,
            ).should_quit
            &&& kind == 3 ==> res is Quit && final(app).should_quit && final(app).chat == old(
                app,
            ).chat && final(app).agent_busy == old(app).agent_busy
            &&& kind == 4 && old(app).agent_busy ==> res is Nothing && final(app).chat.lines@.len()
                == old(app).chat.lines@.len() + 1 && final(app).chat.lines@.last() is System
                && final(app).chat.lines@.last()->System_0@ == agent_busy_text()
                && final(app).chat.lines@.drop_last() == old(app).chat.lines@
                && final(app).agent_busy && final(app).should_quit == old(app).should_quit
            &&& kind == 4 && !old(app).agent_busy ==> (res matches InputAction::AskAgent(t)
                && t@ == text@) && final(app).agent_busy && final(app).chat == old(app).chat
                && final(app).should_quit == old(app).should_quit
        }),
        final(app).board == old(app).board,
        final(app).current_tab == old(app).current_tab,
        final(app).logs == old(app).logs,
        final(app).tab_bar_visible == old(app).tab_bar_visible,
        final(app).chat.input == old(app).chat.input,
        final(app).chat.cursor_pos == old(app).chat.cursor_pos,
        final(app).chat.scroll_offset == (if command_of(text@).0 == 2 || (command_of(text@).0 == 4
            && old(app).agent_busy) {
            0
        } else {
            old(app).chat.scroll_offset
        }),
{
    match parse_command(text) {
        Command::Board => InputAction::ShowBoard,
        Command::TaskUsage => {
            app.push_chat(ChatLine::System("Usage: /task \"description\"".to_owned()));
            proof {
                assert(app.chat.lines@.drop_last() =~= old(app).chat.lines@);
            }
            InputAction::Nothing
        },
        Command::Task(title) => InputAction::PostTask(title.to_owned()),
        Command::Quit => {
            app.should_quit = true;
            InputAction::Quit
        },
        Command::Chat(_) => {
            if app.agent_busy {
                app.push_chat(ChatLine::System("Agent is busy...".to_owned()));
                proof {
                    assert(app.chat.lines@.drop_last() =~= old(app).chat.lines@);
                }
                return InputAction::Nothing;
            }
            app.agent_busy = true;
            InputAction::AskAgent(text.to_owned())
        },
    }
}

/// The board summary line: `Board: 1 open · 2 claimed · 3 done`.
pub open spec fn board_summary_text(open: nat, claimed: nat, done: nat) -> Seq<char> {
    "Board: "@ + decimal(open) + " open \u{b7} "@ + decimal(claimed) + " claimed \u{b7} "@
        + decimal(done) + " done"@
}

/// Shows a fresh board listing: keeps the items and adds the summary line
/// to the transcript.
pub fn show_board_summary(app: &mut App, items: Vec<WorkItem>)
    ensures
        final(app).board.items@ == items@,
        final(app).chat.lines@.len() == old(app).chat.lines@.len() + 1,
        final(app).chat.lines@.drop_last() == old(app).chat.lines@,
        final(app).chat.lines@.last() is System,
        final(app).chat.lines@.last()->System_0@ == board_summary_text(
            count_status(items@, Status::Open),
            count_status(items@, Status::Claimed),
            count_status(items@, Status::Done),
        ),
        final(app).chat.input == old(app).chat.input,
        final(app).chat.cursor_pos == old(app).chat.cursor_pos,
        final(app).board.rigs == old(app).board.rigs,
        final(app).agent_busy == old(app).agent_busy,
        final(app).should_quit == old(app).should_quit,
{
    app.board.items = items;
    let (open, claimed, done) = app.board_summary();
    let mut out: Vec<char> = Vec::new();
    push_str(&mut out, "Board: ");
    push_decimal(&mut out, open as u64);
    push_str(&mut out, " open \u{b7} ");
    push_decimal(&mut out, claimed as u64);
    push_str(&mut out, " claimed \u{b7} ");
    push_decimal(&mut out, done as u64);
    push_str(&mut out, " done");
    proof {
        assert(out@ =~= board_summary_text(open as nat, claimed as nat, done as nat));
    }
    app.push_chat(ChatLine::System(string_of(&out)));
    proof {
        assert(app.chat.lines@.drop_last() =~= old(app).chat.lines@);
    }
}

/// The line confirming a posted task: `● #7 "title" — posted (Worker will pick it up)`.
pub open spec fn task_posted_text(id: int, title: Seq<char>) -> Seq<char> {
    "\u{25cf} #"@ + int_decimal(id) + " \""@ + title + "\" \u{2014} posted (Worker will pick it up)"@
}

/// Reports a posted task in the transcript.
pub fn task_posted(app: &mut App, id: i64, title: &str)
    ensures
        final(app).chat.lines@.len() == old(app).chat.lines@.len() + 1,
        final(app).chat.lines@.drop_last() == old(app).chat.lines@,
        final(app).chat.lines@.last() is System,
        final(app).chat.lines@.last()->System_0@ == task_posted_text(id as int, title@),
        final(app).board == old(app).board,
        final(app).agent_busy == old(app).agent_busy,
{
    let mut out: Vec<char> = Vec::new();
    push_str(&mut out, "\u{25cf} #");
    push_i64(&mut out, id);
    push_str(&mut out, " \"");
    push_str(&mut out, title);
    push_str(&mut out, "\" \u{2014} posted (Worker will pick it up)");
    proof {
        assert(out@ =~= task_posted_text(id as int, title@));
    }
    app.push_chat(ChatLine::System(string_of(&out)));
    proof {
        assert(app.chat.lines@.drop_last() =~= old(app).chat.lines@);
    }
}

/// Reports a failed post in the transcript: `Post failed: <error>`.
pub fn task_post_failed(app: &mut App, error: &str)
    ensures
        final(app).chat.lines@.len() == old(app).chat.lines@.len() + 1,
        final(app).chat.lines@.drop_last() == old(app).chat.lines@,
        final(app).chat.lines@.last() is System,
        final(app).chat.lines@.last()->System_0@ == "Post failed: "@ + error@,
        final(app).board == old(app).board,
        final(app).agent_busy == old(app).agent_busy,
{
    let mut out: Vec<char> = Vec::new();
    push_str(&mut out, "Post failed: ");
    push_str(&mut out, error);
    proof {
        assert(out@ =~= "Post failed: "@ + error@);
    }
    app.push_chat(ChatLine::System(string_of(&out)));
    proof {
        assert(app.chat.lines@.drop_last() =~= old(app).chat.lines@);
    }
}

/// Applies a message from the agent: text is streamed into the transcript;
/// the end of the reply frees the agent. Returns whether the board should
/// be listed again (after a reply, since the agent may have changed it).
pub fn apply_agent_msg(app: &mut App, msg: AgentMsg) -> (refresh: bool)
    ensures
        match msg {
            AgentMsg::Text(t) => {
                &&& !refresh
                &&& final(app).chat.lines@.len() == lines_after_agent_text(
                    old(app).chat.lines@,
                    t@,
                ).len()
                &&& final(app).chat.lines@.drop_last() == lines_after_agent_text(
                    old(app).chat.lines@,
                    t@,
                ).drop_last()
                &&& is_agent_with(
                    final(app).chat.lines@.last(),
                    if old(app).chat.lines@.len() > 0 && old(app).chat.lines@.last() is Agent {
                        old(app).chat.lines@.last()->Agent_0@ + t@
                    } else {
                        t@
                    },
                )
                &&& final(app).agent_busy == old(app).agent_busy
            },
            AgentMsg::Done => refresh && !final(app).agent_busy && final(app).chat == old(
                app,
            ).chat,
        },
        final(app).board == old(app).board,
        final(app).should_quit == old(app).should_quit,
{
    match msg {
        AgentMsg::Text(t) => {
            app.append_agent_text(t.as_str());
            false
        },
        AgentMsg::Done => {
            app.agent_busy = false;
            true
        },
    }
}

/// Whether `item` is claimed by the rig `rig`.
pub open spec fn claimed_by_rig(item: WorkItem, rig: Seq<char>) -> bool {
    item.status == Status::Claimed && (item.claimed_by matches Some(c) && c@ == rig)
}

/// Rig summaries for the board panel: each rig with its trust level, and
/// working exactly when some item is claimed by it.
pub fn rig_infos(rigs: &Vec<(String, String)>, items: &Vec<WorkItem>) -> (res: Vec<RigInfo>)
    ensures
        res@.len() == rigs@.len(),
        forall|i: int|
            0 <= i < rigs@.len() ==> {
                &&& (#[trigger] res@[i]).id@ == rigs@[i].0@
                &&& res@[i].trust_level@ == rigs@[i].1@
                &&& (res@[i].status == RigStatus::Working <==> exists|j: int|
                    0 <= j < items@.len() && claimed_by_rig(items@[j], rigs@[i].0@))
            },
{
    let mut res: Vec<RigInfo> = Vec::new();
    let mut i: usize = 0;
    while i < rigs.len()
        invariant
            i <= rigs@.len(),
            res@.len() == i,
            forall|k: int|
                0 <= k < i ==> {
                    &&& (#[trigger] res@[k]).id@ == rigs@[k].0@
                    &&& res@[k].trust_level@ == rigs@[k].1@
                    &&& (res@[k].status == RigStatus::Working <==> exists|j: int|
                        0 <= j < items@.len() && claimed_by_rig(items@[j], rigs@[k].0@))
                },
        decreases rigs@.len() - i,
    {
        let id = &rigs[i].0;
        let working = any_claimed_by(items, id);
        res.push(
            RigInfo {
                id: id.clone(),
                trust_level: rigs[i].1.clone(),
                status: if working {
                    RigStatus::Working
                } else {
                    RigStatus::Idle
                },
            },
        );
        i = i + 1;
    }
    res
}

fn any_claimed_by(items: &Vec<WorkItem>, rig: &String) -> (res: bool)
    ensures
        res == exists|j: int| 0 <= j < items@.len() && claimed_by_rig(items@[j], rig@),
{
    let mut j: usize = 0;
    while j < items.len()
        invariant
            j <= items@.len(),
            forall|k: int| 0 <= k < j ==> !claimed_by_rig(items@[k], rig@),
        decreases items@.len() - j,
    {
        let it = &items[j];
        if it.status == Status::Claimed {
            match &it.claimed_by {
                Some(c) => {
                    if *c == *rig {
                        assert(claimed_by_rig(items@[j as int], rig@));
                        return true;
                    }
                },
                None => {},
            }
        }
        j = j + 1;
    }
    false
}

} // verus!
