//! The state of the terminal UI: tabs, the chat transcript and its input
//! line, the board snapshot, and the log panel.

use vstd::prelude::*;

use crate::text::{byte_len, byte_offset, chars_of, string_of, trim, trim_vec};

verus! {

// ---------------------------------------------------------------------------
// Tabs
// ---------------------------------------------------------------------------

/// The three tabs of the terminal UI.
#[derive(Debug, Clone, Copy, PartialEq, Eq, Structural)]
pub enum Tab {
    Chat,
    Board,
    Logs,
}

/// The tab after `t`, cycling Chat → Board → Logs → Chat.
pub open spec fn tab_next(t: Tab) -> Tab {
    match t {
        Tab::Chat => Tab::Board,
        Tab::Board => Tab::Logs,
        Tab::Logs => Tab::Chat,
    }
}

/// The tab before `t`, cycling Chat → Logs → Board → Chat.
pub open spec fn tab_prev(t: Tab) -> Tab {
    match t {
        Tab::Chat => Tab::Logs,
        Tab::Board => Tab::Chat,
        Tab::Logs => Tab::Board,
    }
}

/// The name shown for `t` in the tab bar.
pub open spec fn tab_label(t: Tab) -> Seq<char> {
    match t {
        Tab::Chat => "Chat"@,
        Tab::Board => "Board"@,
        Tab::Logs => "Logs"@,
    }
}

impl Tab {
    /// All tabs, in tab-bar order.
    pub const ALL: [Tab; 3] = [Tab::Chat, Tab::Board, Tab::Logs];

    /// The next tab, cycling forward.
    pub fn next(self) -> (res: Tab)
        ensures
            res == tab_next(self),
    {
        match self {
            Tab::Chat => Tab::Board,
            Tab::Board => Tab::Logs,
            Tab::Logs => Tab::Chat,
        }
    }

    /// The previous tab, cycling backward.
    pub fn prev(self) -> (res: Tab)
        ensures
            res == tab_prev(self),
    {
        match self {
            Tab::Chat => Tab::Logs,
            Tab::Board => Tab::Chat,
            Tab::Logs => Tab::Board,
        }
    }

    /// The label of the tab.
    pub fn label(&self) -> (res: &'static str)
        ensures
            res@ == tab_label(*self),
    {
        match self {
            Tab::Chat => "Chat",
            Tab::Board => "Board",
            Tab::Logs => "Logs",
        }
    }
}

/// Cycling forward and then backward, or backward and then forward, comes
/// back to the same tab; three steps forward make a full turn.
pub proof fn law_tab_cycle(t: Tab)
    ensures
        tab_prev(tab_next(t)) == t,
        tab_next(tab_prev(t)) == t,
        tab_next(tab_next(tab_next(t))) == t,
        tab_next(t) != t,
{
}

// ---------------------------------------------------------------------------
// Chat
// ---------------------------------------------------------------------------

/// One entry of the chat transcript.
#[derive(Debug, Clone, PartialEq, Eq)]
pub enum ChatLine {
    User(String),
    Agent(String),
    System(String),
}

/// The chat transcript and the input line being edited.
pub struct ChatState {
    pub lines: Vec<ChatLine>,
    pub input: String,
    /// Cursor position in the input, counted in characters.
    pub cursor_pos: usize,
    /// How many lines the view is scrolled up from the bottom.
    pub scroll_offset: usize,
}

/// The transcript after streaming `text` from the agent: it extends the
/// agent's last entry, or starts a new agent entry.
pub open spec fn lines_after_agent_text(lines: Seq<ChatLine>, text: Seq<char>) -> Seq<ChatLine> {
    if lines.len() > 0 && lines.last() is Agent {
        lines.drop_last().push(ChatLine::Agent(string_with(lines.last()->Agent_0@ + text)))
    } else {
        lines.push(ChatLine::Agent(string_with(text)))
    }
}

/// Some string holding exactly the characters `s`.
pub open spec fn string_with(s: Seq<char>) -> String {
    choose|r: String| r@ == s
}

/// Whether the entry is an agent entry holding the characters `s`.
pub open spec fn is_agent_with(l: ChatLine, s: Seq<char>) -> bool {
    l is Agent && l->Agent_0@ == s
}

/// The cursor's character index, clamped to the input.
pub open spec fn clamp_cursor(cursor: usize, len: nat) -> int {
    if cursor < len {
        cursor as int
    } else {
        len as int
    }
}

impl ChatState {
    /// Adds an entry to the transcript and scrolls back to the bottom.
    pub fn push(&mut self, line: ChatLine)
        ensures
            final(self).lines@ == old(self).lines@.push(line),
            final(self).scroll_offset == 0,
            final(self).input == old(self).input,
            final(self).cursor_pos == old(self).cursor_pos,
    {
        self.lines.push(line);
        self.scroll_offset = 0;
    }

    /// Streams agent text into the transcript: it extends the agent's last
    /// entry, or starts a new agent entry, and scrolls back to the bottom.
    pub fn append_agent_text(&mut self, text: &str)
        ensures
            final(self).lines@.len() == lines_after_agent_text(old(self).lines@, text@).len(),
            final(self).lines@.drop_last() == lines_after_agent_text(
                old(self).lines@,
                text@,
            ).drop_last(),
            is_agent_with(
                final(self).lines@.last(),
                if old(self).lines@.len() > 0 && old(self).lines@.last() is Agent {
                    old(self).lines@.last()->Agent_0@ + text@
                } else {
                    text@
                },
            ),
            final(self).scroll_offset == 0,
            final(self).input == old(self).input,
            final(self).cursor_pos == old(self).cursor_pos,
    {
        let n = self.lines.len();
        let mut extended = false;
        if n > 0 {
            let last = self.lines.pop();
            match last {
                Some(ChatLine::Agent(t)) => {
                    let mut cs = chars_of(t.as_str());
                    let more = chars_of(text);
                    crate::text::push_all(&mut cs, &more);
                    self.lines.push(ChatLine::Agent(string_of(&cs)));
                    extended = true;
                },
                Some(other) => {
                    self.lines.push(other);
                    proof {
                        assert(self.lines@ =~= old(self).lines@);
                    }
                },
                None => {},
            }
        }
        if !extended {
            self.lines.push(ChatLine::Agent(text.to_owned()));
        }
        self.scroll_offset = 0;
        proof {
            assert(final(self).lines@.drop_last() =~= lines_after_agent_text(
                old(self).lines@,
                text@,
            ).drop_last());
        }
    }

    /// The byte offset in the input at which the cursor stands (the end of
    /// the input when the cursor is past it).
    pub fn cursor_byte_pos(&self) -> (res: usize)
        requires
            byte_len(self.input@) <= usize::MAX,
        ensures
            res == byte_len(self.input@.take(clamp_cursor(self.cursor_pos, self.input@.len()))),
    {
        let cs = chars_of(self.input.as_str());
        byte_offset(&cs, self.cursor_pos)
    }

    /// The number of characters in the input.
    pub fn char_count(&self) -> (res: usize)
        ensures
            res == self.input@.len(),
    {
        let cs = chars_of(self.input.as_str());
        cs.len()
    }

    /// Takes the input line, trimmed, as the user's message: when it is not
    /// blank it is cleared, the cursor returns to the start, and the message
    /// joins the transcript; a blank input leaves everything as it was.
    pub fn submit_input(&mut self) -> (res: Option<String>)
        ensures
            match res {
                Some(text) => {
                    &&& text@ == trim(old(self).input@)
                    &&& text@.len() > 0
                    &&& final(self).input@.len() == 0
                    &&& final(self).cursor_pos == 0
                    &&& final(self).lines@ == old(self).lines@.push(ChatLine::User(text))
                    &&& final(self).scroll_offset == 0
                },
                None => {
                    &&& trim(old(self).input@).len() == 0
                    &&& *final(self) == *old(self)
                },
            },
    {
        let cs = chars_of(self.input.as_str());
        let t = trim_vec(&cs);
        if t.len() == 0 {
            return None;
        }
        let text = string_of(&t);
        self.input = String::new();
        self.cursor_pos = 0;
        self.push(ChatLine::User(text.clone()));
        Some(text)
    }
}

// ---------------------------------------------------------------------------
// Board snapshot
// ---------------------------------------------------------------------------

/// Where a work item stands on the board.
#[derive(Debug, Clone, Copy, PartialEq, Eq, Structural)]
pub enum Status {
    Open,
    Claimed,
    Done,
    Abandoned,
    Stuck,
}

/// How urgent a work item is; `P0` is the most urgent.
#[derive(Debug, Clone, Copy, PartialEq, Eq, Structural)]
pub enum Priority {
    P0,
    P1,
    P2,
}

/// The urgency rank of a priority: higher is more urgent.
pub open spec fn urgency(p: Priority) -> nat {
    match p {
        Priority::P0 => 2,
        Priority::P1 => 1,
        Priority::P2 => 0,
    }
}

impl Priority {
    /// The urgency rank: higher is more urgent.
    pub fn urgency(&self) -> (res: u8)
        ensures
            res == urgency(*self),
    {
        match self {
            Priority::P0 => 2,
            Priority::P1 => 1,
            Priority::P2 => 0,
        }
    }
}

/// A work item on the board, as the UI shows it.
#[derive(Debug, Clone)]
pub struct WorkItem {
    pub id: i64,
    pub title: String,
    pub description: String,
    pub created_by: String,
    pub status: Status,
    pub priority: Priority,
    pub tags: Vec<String>,
    pub claimed_by: Option<String>,
}

/// How a rig is doing right now.
#[derive(Debug, Clone, Copy, PartialEq, Eq, Structural)]
pub enum RigStatus {
    Idle,
    Working,
}

impl RigStatus {
    /// The icon shown next to a rig: a sleeping face or a gear.
    pub fn icon(&self) -> (res: &'static str)
        ensures
            res@ == (match *self {
                RigStatus::Idle => "\u{1f4a4}"@,
                RigStatus::Working => "\u{2699}"@,
            }),
    {
        match self {
            RigStatus::Idle => "\u{1f4a4}",
            RigStatus::Working => "\u{2699}",
        }
    }
}

/// A rig summary for the board panel.
#[derive(Debug, Clone)]
pub struct RigInfo {
    pub id: String,
    pub trust_level: String,
    pub status: RigStatus,
}

/// The board as the UI last saw it.
pub struct BoardState {
    pub items: Vec<WorkItem>,
    pub rigs: Vec<RigInfo>,
}

/// The number of items with status `s`.
pub open spec fn count_status(items: Seq<WorkItem>, s: Status) -> nat {
    items.filter(|i: WorkItem| i.status == s).len()
}

/// An item that is open or claimed, with priority rank `u`.
pub open spec fn active_with_urgency(i: WorkItem, u: nat) -> bool {
    (i.status == Status::Open || i.status == Status::Claimed) && urgency(i.priority) == u
}

/// The open and claimed items, most urgent first, keeping board order
/// among items of equal urgency (a stable sort by urgency).
pub open spec fn active_items_spec(items: Seq<WorkItem>) -> Seq<WorkItem> {
    items.filter(|i: WorkItem| active_with_urgency(i, 2)) + items.filter(
        |i: WorkItem| active_with_urgency(i, 1),
    ) + items.filter(|i: WorkItem| active_with_urgency(i, 0))
}

/// The last three done items, latest first.
pub open spec fn recent_done_spec(items: Seq<WorkItem>) -> Seq<WorkItem> {
    let done = items.filter(|i: WorkItem| i.status == Status::Done).reverse();
    done.take(if done.len() < 3 { done.len() as int } else { 3 })
}

fn count_with_status(items: &Vec<WorkItem>, s: Status) -> (res: usize)
    ensures
        res == count_status(items@, s),
{
    let mut n: usize = 0;
    let mut i: usize = 0;
    while i < items.len()
        invariant
            i <= items@.len(),
            n == items@.take(i as int).filter(|w: WorkItem| w.status == s).len(),
            n <= i,
        decreases items@.len() - i,
    {
        proof {
            reveal_with_fuel(Seq::<_>::filter, 1);
            assert(items@.take(i + 1).drop_last() =~= items@.take(i as int));
        }
        if items[i].status == s {
            n = n + 1;
        }
        i = i + 1;
    }
    assert(items@.take(items@.len() as int) =~= items@);
    n
}

fn push_active_with<'a>(items: &'a Vec<WorkItem>, u: u8, out: &mut Vec<&'a WorkItem>)
    requires
        u <= 2,
    ensures
        final(out)@.map_values(|w: &WorkItem| *w) == old(out)@.map_values(|w: &WorkItem| *w)
            + items@.filter(|i: WorkItem| active_with_urgency(i, u as nat)),
{
    let ghost start = old(out)@.map_values(|w: &WorkItem| *w);
    let mut i: usize = 0;
    while i < items.len()
        invariant
            i <= items@.len(),
            out@.map_values(|w: &WorkItem| *w) == start + items@.take(i as int).filter(
                |j: WorkItem| active_with_urgency(j, u as nat),
            ),
        decreases items@.len() - i,
    {
        let it = &items[i];
        let hit = (it.status == Status::Open || it.status == Status::Claimed) && it.priority.urgency()
            == u;
        proof {
            let f = |j: WorkItem| active_with_urgency(j, u as nat);
            let t = items@.take(i + 1);
            assert(t.drop_last() =~= items@.take(i as int));
            assert(t.last() == items@[i as int]);
            assert(hit == f(t.last()));
            assert(t.filter(f) == if f(t.last()) {
                t.drop_last().filter(f).push(t.last())
            } else {
                t.drop_last().filter(f)
            }) by {
                reveal_with_fuel(Seq::<_>::filter, 1);
            }
        }
        let ghost prev = out@.map_values(|w: &WorkItem| *w);
        if hit {
            out.push(it);
            proof {
                assert(out@.map_values(|w: &WorkItem| *w) =~= prev.push(items@[i as int]));
                assert(out@.map_values(|w: &WorkItem| *w) =~= start + items@.take(i + 1).filter(
                    |j: WorkItem| active_with_urgency(j, u as nat),
                ));
            }
        }
        i = i + 1;
    }
    assert(items@.take(items@.len() as int) =~= items@);
}

impl BoardState {
    /// How many items are open, claimed, and done.
    pub fn summary(&self) -> (res: (usize, usize, usize))
        ensures
            res.0 == count_status(self.items@, Status::Open),
            res.1 == count_status(self.items@, Status::Claimed),
            res.2 == count_status(self.items@, Status::Done),
    {
        (
            count_with_status(&self.items, Status::Open),
            count_with_status(&self.items, Status::Claimed),
            count_with_status(&self.items, Status::Done),
        )
    }

    /// The open and claimed items, most urgent first.
    pub fn active_items(&self) -> (res: Vec<&WorkItem>)
        ensures
            res@.map_values(|w: &WorkItem| *w) == active_items_spec(self.items@),
    {
        let mut out: Vec<&WorkItem> = Vec::new();
        assert(out@.map_values(|w: &WorkItem| *w) =~= Seq::<WorkItem>::empty());
        push_active_with(&self.items, 2, &mut out);
        push_active_with(&self.items, 1, &mut out);
        push_active_with(&self.items, 0, &mut out);
        proof {
            assert(Seq::<WorkItem>::empty() + self.items@.filter(
                |i: WorkItem| active_with_urgency(i, 2),
            ) =~= self.items@.filter(|i: WorkItem| active_with_urgency(i, 2)));
        }
        out
    }

    /// The three most recently listed done items, latest first.
    pub fn recent_done(&self) -> (res: Vec<&WorkItem>)
        ensures
            res@.map_values(|w: &WorkItem| *w) == recent_done_spec(self.items@),
    {
        let mut out: Vec<&WorkItem> = Vec::new();
        let ghost done = self.items@.filter(|i: WorkItem| i.status == Status::Done);
        let mut i: usize = self.items.len();
        while i > 0 && out.len() < 3
            invariant
                i <= self.items@.len(),
                done == self.items@.filter(|w: WorkItem| w.status == Status::Done),
                out@.len() <= 3,
                out@.map_values(|w: &WorkItem| *w) == self.items@.skip(i as int).filter(
                    |w: WorkItem| w.status == Status::Done,
                ).reverse(),
            decreases i,
        {
            proof {
                lemma_filter_skip_step(self.items@, i as int);
            }
            let it = &self.items[i - 1];
            let ghost prev = out@.map_values(|w: &WorkItem| *w);
            if it.status == Status::Done {
                out.push(it);
                proof {
                    let b = self.items@.skip(i as int).filter(|w: WorkItem| w.status == Status::Done);
                    assert((seq![self.items@[i - 1]] + b).reverse() =~= b.reverse().push(
                        self.items@[i - 1],
                    ));
                    assert(out@.map_values(|w: &WorkItem| *w) =~= prev.push(self.items@[i - 1]));
                }
            }
            i = i - 1;
        }
        proof {
            lemma_recent_done_prefix(self.items@, i as int, out@.map_values(|w: &WorkItem| *w));
        }
        out
    }
}

proof fn lemma_filter_skip_step(items: Seq<WorkItem>, i: int)
    requires
        0 < i <= items.len(),
    ensures
        items.skip(i - 1).filter(|w: WorkItem| w.status == Status::Done) == (if items[i
            - 1].status == Status::Done {
            seq![items[i - 1]] + items.skip(i).filter(|w: WorkItem| w.status == Status::Done)
        } else {
            items.skip(i).filter(|w: WorkItem| w.status == Status::Done)
        }),
{
    let f = |w: WorkItem| w.status == Status::Done;
    assert(items.skip(i - 1) =~= seq![items[i - 1]] + items.skip(i));
    Seq::filter_distributes_over_add(seq![items[i - 1]], items.skip(i), f);
    reveal_with_fuel(Seq::<_>::filter, 2);
    assert(seq![items[i - 1]].drop_last() =~= Seq::<WorkItem>::empty());
}

proof fn lemma_recent_done_prefix(items: Seq<WorkItem>, i: int, out: Seq<WorkItem>)
    requires
        0 <= i <= items.len(),
        out.len() <= 3,
        out == items.skip(i).filter(|w: WorkItem| w.status == Status::Done).reverse(),
        i == 0 || out.len() == 3,
    ensures
        out == recent_done_spec(items),
{
    let f = |w: WorkItem| w.status == Status::Done;
    assert(items =~= items.take(i) + items.skip(i));
    Seq::filter_distributes_over_add(items.take(i), items.skip(i), f);
    let a = items.take(i).filter(f);
    let b = items.skip(i).filter(f);
    assert((a + b).reverse() =~= b.reverse() + a.reverse());
    if i == 0 {
        assert(items.take(0).filter(f) =~= Seq::<WorkItem>::empty()) by {
            reveal_with_fuel(Seq::<_>::filter, 1);
        }
        assert(items.skip(0) =~= items);
        assert(out.take(out.len() as int) =~= out);
    } else {
        assert((b.reverse() + a.reverse()).take(3) =~= b.reverse());
    }
}

// ---------------------------------------------------------------------------
// Logs
// ---------------------------------------------------------------------------

/// Severity of a log entry.
#[derive(Debug, Clone, Copy, PartialEq, Eq, Structural)]
pub enum LogLevel {
    Error,
    Warn,
    Info,
    Debug,
    Trace,
}

/// One log entry shown in the Logs tab.
#[derive(Debug, Clone)]
pub struct LogEntry {
    /// Seconds since the Unix epoch.
    pub timestamp_secs: i64,
    /// Nanoseconds within that second.
    pub timestamp_nanos: u32,
    pub level: LogLevel,
    pub target: String,
    pub message: String,
    /// Whether the entry is a structured event (shown when not verbose).
    pub structured: bool,
}

/// Whether events of this target are structured: those of the rigs and
/// of the evolver.
pub open spec fn structured_target(target: Seq<char>) -> bool {
    crate::text::has_prefix(target, "opengoose_rig::rig"@) || crate::text::has_prefix(
        target,
        "opengoose::evolver"@,
    )
}

impl LogEntry {
    /// Whether events of `target` are shown when the log panel is not verbose.
    pub fn is_structured_target(target: &str) -> (res: bool)
        ensures
            res == structured_target(target@),
    {
        let cs = crate::text::chars_of(target);
        crate::text::starts_with_str(&cs, "opengoose_rig::rig") || crate::text::starts_with_str(
            &cs,
            "opengoose::evolver",
        )
    }
}

/// Whether an event is shown when the log panel is not verbose: it comes
/// from a structured target and is at least as severe as `Info`.
pub open spec fn structured_event(target: Seq<char>, level: LogLevel) -> bool {
    structured_target(target) && (level == LogLevel::Error || level == LogLevel::Warn || level
        == LogLevel::Info)
}

/// Whether an event of `target` at `level` is structured.
pub fn is_structured_event(target: &str, level: LogLevel) -> (res: bool)
    ensures
        res == structured_event(target@, level),
{
    LogEntry::is_structured_target(target) && (level == LogLevel::Error || level == LogLevel::Warn
        || level == LogLevel::Info)
}

/// Builds the message of a log entry from the fields of an event.
pub struct MessageVisitor {
    pub message: String,
}

/// The message after recording field `name` with the text `value`: the
/// `message` field is the message; other fields are appended as
/// `name = value`, separated by spaces.
pub open spec fn message_after(message: Seq<char>, name: Seq<char>, value: Seq<char>) -> Seq<char> {
    if name == "message"@ {
        value
    } else if message.len() == 0 {
        name + " = "@ + value
    } else {
        message + " "@ + name + " = "@ + value
    }
}

impl MessageVisitor {
    /// A visitor with an empty message.
    pub fn new() -> (res: MessageVisitor)
        ensures
            res.message@.len() == 0,
    {
        MessageVisitor { message: String::new() }
    }

    /// Records field `name` whose value reads `value` (its text, or its
    /// debug form for values that are not strings).
    pub fn record_text(&mut self, name: &str, value: &str)
        ensures
            final(self).message@ == message_after(old(self).message@, name@, value@),
    {
        if crate::text::str_is(name, "message") {
            self.message = value.to_string();
            return;
        }
        let mut out: Vec<char> = Vec::new();
        if self.message.unicode_len() > 0 {
            crate::text::push_str(&mut out, self.message.as_str());
            crate::text::push_str(&mut out, " ");
        }
        crate::text::push_str(&mut out, name);
        crate::text::push_str(&mut out, " = ");
        crate::text::push_str(&mut out, value);
        assert(out@ =~= message_after(old(self).message@, name@, value@));
        self.message = crate::text::string_of(&out);
    }
}

/// The most entries the log panel keeps.
pub const LOG_CAPACITY: usize = 1000;

/// The log panel.
pub struct LogState {
    pub entries: std::collections::VecDeque<LogEntry>,
    pub verbose: bool,
    pub scroll_offset: usize,
    pub auto_scroll: bool,
}

impl LogState {
    /// Adds an entry, dropping the oldest when the panel is full; follows
    /// the newest entry when auto-scroll is on.
    pub fn push(&mut self, entry: LogEntry)
        ensures
            final(self).entries@ == (if old(self).entries@.len() >= LOG_CAPACITY {
                old(self).entries@.drop_first()
            } else {
                old(self).entries@
            }).push(entry),
            final(self).scroll_offset == (if old(self).auto_scroll {
                0
            } else {
                old(self).scroll_offset
            }),
            final(self).verbose == old(self).verbose,
            final(self).auto_scroll == old(self).auto_scroll,
    {
        if self.entries.len() >= LOG_CAPACITY {
            self.entries.pop_front();
        }
        self.entries.push_back(entry);
        if self.auto_scroll {
            self.scroll_offset = 0;
        }
    }

    /// The entries shown: all of them when verbose, otherwise the
    /// structured ones, oldest first.
    pub fn visible(&self) -> (res: Vec<&LogEntry>)
        ensures
            res@.map_values(|e: &LogEntry| *e) == (if self.verbose {
                self.entries@
            } else {
                self.entries@.filter(|e: LogEntry| e.structured)
            }),
    {
        let mut out: Vec<&LogEntry> = Vec::new();
        let mut i: usize = 0;
        let verbose = self.verbose;
        while i < self.entries.len()
            invariant
                i <= self.entries@.len(),
                verbose == self.verbose,
                out@.map_values(|e: &LogEntry| *e) == (if verbose {
                    self.entries@.take(i as int)
                } else {
                    self.entries@.take(i as int).filter(|e: LogEntry| e.structured)
                }),
            decreases self.entries@.len() - i,
        {
            proof {
                reveal_with_fuel(Seq::<_>::filter, 1);
                assert(self.entries@.take(i + 1).drop_last() =~= self.entries@.take(i as int));
            }
            let e = &self.entries[i];
            if verbose || e.structured {
                out.push(e);
            }
            i = i + 1;
            proof {
                assert(out@.map_values(|e: &LogEntry| *e) =~= (if verbose {
                    self.entries@.take(i as int)
                } else {
                    self.entries@.take(i as int).filter(|e: LogEntry| e.structured)
                }));
            }
        }
        assert(self.entries@.take(self.entries@.len() as int) =~= self.entries@);
        out
    }
}

/// The log panel never holds more than its capacity: pushing onto a panel
/// within capacity keeps it within capacity.
pub proof fn law_log_capacity(before: Seq<LogEntry>, entry: LogEntry)
    requires
        before.len() <= LOG_CAPACITY,
    ensures
        (if before.len() >= LOG_CAPACITY {
            before.drop_first()
        } else {
            before
        }).push(entry).len() <= LOG_CAPACITY,
{
}

// ---------------------------------------------------------------------------
// The whole UI
// ---------------------------------------------------------------------------

/// The whole terminal UI state.
pub struct App {
    pub chat: ChatState,
    pub board: BoardState,
    pub logs: LogState,
    pub should_quit: bool,
    pub agent_busy: bool,
    pub current_tab: Tab,
    pub tab_bar_visible: bool,
}

/// The greeting the transcript starts with.
pub open spec fn greeting() -> Seq<char> {
    "OpenGoose v0.2 \u{2014} TUI"@
}

impl App {
    /// A fresh UI on the Chat tab, with a greeting, an empty board and no logs.
    pub fn new() -> (res: App)
        ensures
            res.chat.lines@.len() == 1,
            res.chat.lines@[0] is System,
            res.chat.lines@[0]->System_0@ == greeting(),
            res.chat.input@.len() == 0,
            res.chat.cursor_pos == 0,
            res.chat.scroll_offset == 0,
            res.board.items@.len() == 0,
            res.board.rigs@.len() == 0,
            res.logs.entries@.len() == 0,
            !res.logs.verbose,
            res.logs.scroll_offset == 0,
            res.logs.auto_scroll,
            !res.should_quit,
            !res.agent_busy,
            res.current_tab == Tab::Chat,
            res.tab_bar_visible,
    {
        let mut lines: Vec<ChatLine> = Vec::new();
        lines.push(ChatLine::System("OpenGoose v0.2 \u{2014} TUI".to_owned()));
        App {
            chat: ChatState { lines, input: String::new(), cursor_pos: 0, scroll_offset: 0 },
            board: BoardState { items: Vec::new(), rigs: Vec::new() },
            logs: LogState {
                entries: std::collections::VecDeque::new(),
                verbose: false,
                scroll_offset: 0,
                auto_scroll: true,
            },
            should_quit: false,
            agent_busy: false,
            current_tab: Tab::Chat,
            tab_bar_visible: true,
        }
    }

    /// How many board items are open, claimed, and done.
    pub fn board_summary(&self) -> (res: (usize, usize, usize))
        ensures
            res.0 == count_status(self.board.items@, Status::Open),
            res.1 == count_status(self.board.items@, Status::Claimed),
            res.2 == count_status(self.board.items@, Status::Done),
    {
        self.board.summary()
    }

    /// Adds an entry to the transcript and scrolls to the bottom.
    pub fn push_chat(&mut self, line: ChatLine)
        ensures
            final(self).chat.lines@ == old(self).chat.lines@.push(line),
            final(self).chat.scroll_offset == 0,
            final(self).chat.input == old(self).chat.input,
            final(self).chat.cursor_pos == old(self).chat.cursor_pos,
            final(self).board == old(self).board,
            final(self).logs == old(self).logs,
            final(self).should_quit == old(self).should_quit,
            final(self).agent_busy == old(self).agent_busy,
            final(self).current_tab == old(self).current_tab,
            final(self).tab_bar_visible == old(self).tab_bar_visible,
    {
        self.chat.push(line);
    }

    /// Streams agent text into the transcript.
    pub fn append_agent_text(&mut self, text: &str)
        ensures
            final(self).chat.lines@.len() == lines_after_agent_text(
                old(self).chat.lines@,
                text@,
            ).len(),
            final(self).chat.lines@.drop_last() == lines_after_agent_text(
                old(self).chat.lines@,
                text@,
            ).drop_last(),
            is_agent_with(
                final(self).chat.lines@.last(),
                if old(self).chat.lines@.len() > 0 && old(self).chat.lines@.last() is Agent {
                    old(self).chat.lines@.last()->Agent_0@ + text@
                } else {
                    text@
                },
            ),
            final(self).chat.scroll_offset == 0,
            final(self).chat.input == old(self).chat.input,
            final(self).chat.cursor_pos == old(self).chat.cursor_pos,
            final(self).board == old(self).board,
            final(self).logs == old(self).logs,
            final(self).should_quit == old(self).should_quit,
            final(self).agent_busy == old(self).agent_busy,
            final(self).current_tab == old(self).current_tab,
            final(self).tab_bar_visible == old(self).tab_bar_visible,
    {
        self.chat.append_agent_text(text);
    }

    /// The byte offset of the cursor in the input.
    pub fn cursor_byte_pos(&self) -> (res: usize)
        requires
            byte_len(self.chat.input@) <= usize::MAX,
        ensures
            res == byte_len(
                self.chat.input@.take(clamp_cursor(self.chat.cursor_pos, self.chat.input@.len())),
            ),
    {
        self.chat.cursor_byte_pos()
    }

    /// The number of characters in the input.
    pub fn char_count(&self) -> (res: usize)
        ensures
            res == self.chat.input@.len(),
    {
        self.chat.char_count()
    }

    /// Takes the trimmed input as the user's message (see `ChatState::submit_input`).
    pub fn submit_input(&mut self) -> (res: Option<String>)
        ensures
            match res {
                Some(text) => {
                    &&& text@ == trim(old(self).chat.input@)
                    &&& text@.len() > 0
                    &&& final(self).chat.input@.len() == 0
                    &&& final(self).chat.cursor_pos == 0
                    &&& final(self).chat.lines@ == old(self).chat.lines@.push(ChatLine::User(text))
                    &&& final(self).chat.scroll_offset == 0
                },
                None => {
                    &&& trim(old(self).chat.input@).len() == 0
                    &&& final(self).chat == old(self).chat
                },
            },
            final(self).board == old(self).board,
            final(self).logs == old(self).logs,
            final(self).should_quit == old(self).should_quit,
            final(self).agent_busy == old(self).agent_busy,
            final(self).current_tab == old(self).current_tab,
            final(self).tab_bar_visible == old(self).tab_bar_visible,
    {
        self.chat.submit_input()
    }

    /// The open and claimed items, most urgent first.
    pub fn active_items(&self) -> (res: Vec<&WorkItem>)
        ensures
            res@.map_values(|w: &WorkItem| *w) == active_items_spec(self.board.items@),
    {
        self.board.active_items()
    }

    /// The three most recent done items, latest first.
    pub fn recent_done(&self) -> (res: Vec<&WorkItem>)
        ensures
            res@.map_values(|w: &WorkItem| *w) == recent_done_spec(self.board.items@),
    {
        self.board.recent_done()
    }

    /// Adds a log entry (see `LogState::push`).
    pub fn push_log(&mut self, entry: LogEntry)
        ensures
            final(self).logs.entries@ == (if old(self).logs.entries@.len() >= LOG_CAPACITY {
                old(self).logs.entries@.drop_first()
            } else {
                old(self).logs.entries@
            }).push(entry),
            final(self).logs.scroll_offset == (if old(self).logs.auto_scroll {
                0
            } else {
                old(self).logs.scroll_offset
            }),
            final(self).logs.verbose == old(self).logs.verbose,
            final(self).logs.auto_scroll == old(self).logs.auto_scroll,
            final(self).chat == old(self).chat,
            final(self).board == old(self).board,
    {
        self.logs.push(entry);
    }

    /// The log entries shown in the Logs tab.
    pub fn visible_logs(&self) -> (res: Vec<&LogEntry>)
        ensures
            res@.map_values(|e: &LogEntry| *e) == (if self.logs.verbose {
                self.logs.entries@
            } else {
                self.logs.entries@.filter(|e: LogEntry| e.structured)
            }),
    {
        self.logs.visible()
    }
}

} // verus!
