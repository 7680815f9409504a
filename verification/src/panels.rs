//! What the terminal UI's panels show, as text: the board list and its
//! title, the rig list, the log lines, the chat transcript lines and the
//! input cursor's column. Drawing the text (colors, borders, layout) is
//! left to the terminal library outside.

use vstd::prelude::*;

use crate::frontmatter::{lines_of, split_lines};
use crate::text::{
    chars_of, contains_seq, contains_str, decimal, digit_char, push_decimal, push_str,
    string_of,
};
use crate::tui_app::{
    ChatLine, LogEntry, LogLevel, Priority, RigInfo, RigStatus, Status, WorkItem,
};

verus! {

// ---------------------------------------------------------------------------
// Small pieces of text
// ---------------------------------------------------------------------------

/// `s` padded with spaces to `w` characters (`{:<w}`).
pub open spec fn pad_right(s: Seq<char>, w: nat) -> Seq<char> {
    if s.len() >= w {
        s
    } else {
        s + Seq::new((w - s.len()) as nat, |_i: int| ' ')
    }
}

fn push_padded(out: &mut Vec<char>, s: &str, w: usize)
    ensures
        final(out)@ == old(out)@ + pad_right(s@, w as nat),
{
    let cs = chars_of(s);
    crate::text::push_all(out, &cs);
    let mut n = cs.len();
    let ghost base = old(out)@ + s@;
    while n < w
        invariant
            cs@.len() <= n <= w || (cs@.len() >= w && n == cs@.len()),
            out@ == base + Seq::new((n - cs@.len()) as nat, |_i: int| ' '),
            base == old(out)@ + s@,
            cs@ == s@,
        decreases w - n,
    {
        out.push(' ');
        n = n + 1;
        assert(out@ =~= base + Seq::new((n - cs@.len()) as nat, |_i: int| ' '));
    }
    assert(out@ =~= old(out)@ + pad_right(s@, w as nat));
}

/// The name of a priority (`{:?}`).
pub open spec fn priority_text(p: Priority) -> Seq<char> {
    match p {
        Priority::P0 => "P0"@,
        Priority::P1 => "P1"@,
        Priority::P2 => "P2"@,
    }
}

fn priority_str(p: Priority) -> (res: &'static str)
    ensures
        res@ == priority_text(p),
{
    match p {
        Priority::P0 => "P0",
        Priority::P1 => "P1",
        Priority::P2 => "P2",
    }
}

// ---------------------------------------------------------------------------
// The board panel
// ---------------------------------------------------------------------------

/// The board panel's title.
pub open spec fn board_title_text(open: nat, claimed: nat, done: nat) -> Seq<char> {
    " Board \u{2014} "@ + decimal(open) + " open \u{b7} "@ + decimal(claimed) + " claimed \u{b7} "@
        + decimal(done) + " done "@
}

/// The board panel's title: the counts of open, claimed and done items.
pub fn board_title(open: usize, claimed: usize, done: usize) -> (res: String)
    ensures
        res@ == board_title_text(open as nat, claimed as nat, done as nat),
{
    let mut out: Vec<char> = Vec::new();
    push_str(&mut out, " Board \u{2014} ");
    push_decimal(&mut out, open as u64);
    push_str(&mut out, " open \u{b7} ");
    push_decimal(&mut out, claimed as u64);
    push_str(&mut out, " claimed \u{b7} ");
    push_decimal(&mut out, done as u64);
    push_str(&mut out, " done ");
    assert(out@ =~= board_title_text(open as nat, claimed as nat, done as nat));
    string_of(&out)
}

/// The icon of an item in the active list: open, claimed, or anything else.
pub open spec fn status_icon_text(s: Status) -> Seq<char> {
    match s {
        Status::Open => "\u{25cb}"@,
        Status::Claimed => "\u{25cf}"@,
        _ => "\u{b7}"@,
    }
}

fn status_icon(s: Status) -> (res: &'static str)
    ensures
        res@ == status_icon_text(s),
{
    match s {
        Status::Open => "\u{25cb}",
        Status::Claimed => "\u{25cf}",
        _ => "\u{b7}",
    }
}

/// The pieces of an active item's row: icon, `#id`, priority, quoted
/// title, and who claimed it.
pub open spec fn active_row_text(item: WorkItem) -> Seq<Seq<char>> {
    seq![
        status_icon_text(item.status) + " "@,
        "#"@ + crate::text::int_decimal(item.id as int),
        " "@ + priority_text(item.priority) + " "@,
        "\""@ + item.title@ + "\""@,
        match item.claimed_by {
            Some(r) => " ("@ + r@ + ")"@,
            None => Seq::empty(),
        },
    ]
}

/// The pieces of an active item's row.
pub fn active_row(item: &WorkItem) -> (res: Vec<String>)
    ensures
        res@.map_values(|s: String| s@) == active_row_text(*item),
{
    let mut a: Vec<char> = Vec::new();
    push_str(&mut a, status_icon(item.status));
    push_str(&mut a, " ");
    let mut b: Vec<char> = Vec::new();
    b.push('#');
    crate::text::push_i64(&mut b, item.id);
    let mut c: Vec<char> = Vec::new();
    push_str(&mut c, " ");
    push_str(&mut c, priority_str(item.priority));
    push_str(&mut c, " ");
    let mut d: Vec<char> = Vec::new();
    d.push('"');
    push_str(&mut d, item.title.as_str());
    d.push('"');
    let mut e: Vec<char> = Vec::new();
    match &item.claimed_by {
        Some(r) => {
            push_str(&mut e, " (");
            push_str(&mut e, r.as_str());
            push_str(&mut e, ")");
        },
        None => {},
    }
    let mut res: Vec<String> = Vec::new();
    res.push(string_of(&a));
    res.push(string_of(&b));
    res.push(string_of(&c));
    res.push(string_of(&d));
    res.push(string_of(&e));
    proof {
        reveal_strlit("#");
        reveal_strlit("\"");
        let t = active_row_text(*item);
        assert(a@ =~= t[0]);
        assert(b@ =~= t[1]);
        assert(c@ =~= t[2]);
        assert(d@ =~= t[3]);
        assert(e@ =~= t[4]);
        assert(res@.map_values(|s: String| s@) =~= t);
    }
    res
}

/// The pieces of a done item's row: a check mark, then `#id "title"`.
pub open spec fn done_row_text(item: WorkItem) -> Seq<Seq<char>> {
    seq!["\u{2713} "@, "#"@ + crate::text::int_decimal(item.id as int) + " \""@ + item.title@ + "\""@]
}

/// The pieces of a done item's row.
pub fn done_row(item: &WorkItem) -> (res: Vec<String>)
    ensures
        res@.map_values(|s: String| s@) == done_row_text(*item),
{
    let mut b: Vec<char> = Vec::new();
    b.push('#');
    crate::text::push_i64(&mut b, item.id);
    push_str(&mut b, " \"");
    push_str(&mut b, item.title.as_str());
    b.push('"');
    let mut res: Vec<String> = Vec::new();
    res.push("\u{2713} ".to_string());
    res.push(string_of(&b));
    proof {
        reveal_strlit("#");
        reveal_strlit("\"");
        let t = done_row_text(*item);
        assert(b@ =~= t[1]);
        assert(res@.map_values(|s: String| s@) =~= t);
    }
    res
}

/// How a trust level is colored: `L3` good, `L2.5` and `L2` fair, the
/// rest low.
#[derive(Debug, Clone, Copy, PartialEq, Eq, Structural)]
pub enum TrustTone {
    Good,
    Fair,
    Low,
}

/// The tone of a trust level.
pub open spec fn trust_tone_of(level: Seq<char>) -> TrustTone {
    if level == "L3"@ {
        TrustTone::Good
    } else if level == "L2.5"@ || level == "L2"@ {
        TrustTone::Fair
    } else {
        TrustTone::Low
    }
}

/// The tone of a trust level.
pub fn trust_tone(level: &str) -> (res: TrustTone)
    ensures
        res == trust_tone_of(level@),
{
    if crate::text::str_is(level, "L3") {
        TrustTone::Good
    } else if crate::text::str_is(level, "L2.5") || crate::text::str_is(level, "L2") {
        TrustTone::Fair
    } else {
        TrustTone::Low
    }
}

/// The pieces of a rig's row: its id padded to 12, its trust level padded
/// to 4, and its status icon.
pub open spec fn rig_row_text(rig: RigInfo) -> Seq<Seq<char>> {
    seq![
        pad_right(rig.id@, 12),
        pad_right(rig.trust_level@, 4),
        " "@ + match rig.status {
            RigStatus::Idle => "\u{1f4a4}"@,
            RigStatus::Working => "\u{2699}"@,
        },
    ]
}

/// The pieces of a rig's row.
pub fn rig_row(rig: &RigInfo) -> (res: Vec<String>)
    ensures
        res@.map_values(|s: String| s@) == rig_row_text(*rig),
{
    let mut a: Vec<char> = Vec::new();
    push_padded(&mut a, rig.id.as_str(), 12);
    let mut b: Vec<char> = Vec::new();
    push_padded(&mut b, rig.trust_level.as_str(), 4);
    let mut c: Vec<char> = Vec::new();
    push_str(&mut c, " ");
    push_str(&mut c, rig.status.icon());
    let mut res: Vec<String> = Vec::new();
    res.push(string_of(&a));
    res.push(string_of(&b));
    res.push(string_of(&c));
    proof {
        let t = rig_row_text(*rig);
        assert(a@ =~= t[0]);
        assert(b@ =~= t[1]);
        assert(c@ =~= t[2]);
        assert(res@.map_values(|s: String| s@) =~= t);
    }
    res
}

// ---------------------------------------------------------------------------
// The log panel
// ---------------------------------------------------------------------------

/// Two decimal digits.
pub open spec fn two_digits(n: nat) -> Seq<char> {
    seq![digit_char(n / 10), digit_char(n % 10)]
}

/// The time of day of an instant given in seconds since the Unix epoch, in
/// UTC, as `HH:MM:SS`.
pub open spec fn clock_text(secs: int) -> Seq<char> {
    let d = secs % 86400;
    two_digits((d / 3600) as nat) + ":"@ + two_digits(((d % 3600) / 60) as nat) + ":"@
        + two_digits((d % 60) as nat)
}

fn push_two_digits(out: &mut Vec<char>, n: u64)
    requires
        n < 100,
    ensures
        final(out)@ == old(out)@ + two_digits(n as nat),
{
    out.push(crate::text::digit_exec(n / 10));
    out.push(crate::text::digit_exec(n % 10));
    assert(final(out)@ =~= old(out)@ + two_digits(n as nat)) by {
        assert(out@ =~= old(out)@.push(digit_char((n / 10) as nat)).push(
            digit_char((n % 10) as nat),
        ));
    }
}

proof fn lemma_day_seconds(secs: int, k: int, m: int)
    requires
        secs < 0,
        k == -(secs + 1),
        0 <= m < 86400,
        m == k % 86400,
    ensures
        secs % 86400 == 86399 - m,
{
    let q = k / 86400;
    vstd::arithmetic::div_mod::lemma_fundamental_div_mod(k, 86400);
    assert(k == q * 86400 + m);
    assert(secs == (-q - 1) * 86400 + (86399 - m)) by (nonlinear_arith)
        requires
            k == q * 86400 + m,
            k == -(secs + 1),
    {
    }
    vstd::arithmetic::div_mod::lemma_fundamental_div_mod_converse(secs, 86400, -q - 1, 86399 - m);
}

/// The time of day of `secs` (seconds since the Unix epoch) in UTC.
pub fn clock(secs: i64) -> (res: String)
    ensures
        res@ == clock_text(secs as int),
{
    let d: u64 = if secs >= 0 {
        (secs % 86400) as u64
    } else {
        let k: i64 = -(secs + 1);
        let m: i64 = k % 86400;
        proof {
            lemma_day_seconds(secs as int, k as int, m as int);
        }
        (86399 - m) as u64
    };
    assert(d == (secs as int) % 86400);
    let mut out: Vec<char> = Vec::new();
    push_two_digits(&mut out, d / 3600);
    out.push(':');
    push_two_digits(&mut out, (d % 3600) / 60);
    out.push(':');
    push_two_digits(&mut out, d % 60);
    proof {
        reveal_strlit(":");
    }
    assert(out@ =~= clock_text(secs as int));
    string_of(&out)
}

/// The name of a log level (as `tracing` prints it).
pub open spec fn level_text(l: LogLevel) -> Seq<char> {
    match l {
        LogLevel::Error => "ERROR"@,
        LogLevel::Warn => "WARN"@,
        LogLevel::Info => "INFO"@,
        LogLevel::Debug => "DEBUG"@,
        LogLevel::Trace => "TRACE"@,
    }
}

fn level_str(l: LogLevel) -> (res: &'static str)
    ensures
        res@ == level_text(l),
{
    match l {
        LogLevel::Error => "ERROR",
        LogLevel::Warn => "WARN",
        LogLevel::Info => "INFO",
        LogLevel::Debug => "DEBUG",
        LogLevel::Trace => "TRACE",
    }
}

/// Where a structured log line comes from, by its target: a worker
/// (`::rig`), the evolver, or the system.
pub open spec fn log_source_text(target: Seq<char>) -> Seq<char> {
    if contains_seq(target, "::rig"@) {
        "worker"@
    } else if contains_seq(target, "evolver"@) {
        "evolver"@
    } else {
        "system"@
    }
}

/// Where a structured log line comes from.
pub fn log_source(target: &str) -> (res: &'static str)
    ensures
        res@ == log_source_text(target@),
{
    if contains_str(target, "::rig") {
        "worker"
    } else if contains_str(target, "evolver") {
        "evolver"
    } else {
        "system"
    }
}

/// The pieces of a log line: verbose lines show the time, the padded
/// level, the target and the message; the others show the time, the
/// source in brackets and the message.
pub open spec fn log_line_text(e: LogEntry, verbose: bool) -> Seq<Seq<char>> {
    if verbose {
        seq![
            clock_text(e.timestamp_secs as int),
            " "@,
            pad_right(level_text(e.level), 5),
            " "@,
            e.target@,
            "  "@,
            e.message@,
        ]
    } else {
        seq![
            clock_text(e.timestamp_secs as int),
            " ["@ + log_source_text(e.target@) + "] "@,
            e.message@,
        ]
    }
}

/// The pieces of a log line.
pub fn format_log_entry(e: &LogEntry, verbose: bool) -> (res: Vec<String>)
    ensures
        res@.map_values(|s: String| s@) == log_line_text(*e, verbose),
{
    let time = clock(e.timestamp_secs);
    let mut res: Vec<String> = Vec::new();
    if verbose {
        let mut lv: Vec<char> = Vec::new();
        push_padded(&mut lv, level_str(e.level), 5);
        res.push(time);
        res.push(" ".to_string());
        res.push(string_of(&lv));
        res.push(" ".to_string());
        res.push(e.target.clone());
        res.push("  ".to_string());
        res.push(e.message.clone());
        proof {
            assert(res@.map_values(|s: String| s@) =~= log_line_text(*e, verbose));
        }
    } else {
        let mut src: Vec<char> = Vec::new();
        push_str(&mut src, " [");
        push_str(&mut src, log_source(e.target.as_str()));
        push_str(&mut src, "] ");
        res.push(time);
        res.push(string_of(&src));
        res.push(e.message.clone());
        proof {
            assert(src@ =~= " ["@ + log_source_text(e.target@) + "] "@);
            assert(res@.map_values(|s: String| s@) =~= log_line_text(*e, verbose));
        }
    }
    res
}

/// The log panel's title, naming the mode.
pub open spec fn logs_title_text(verbose: bool) -> Seq<char> {
    " Logs ("@ + (if verbose {
        "verbose"@
    } else {
        "structured"@
    }) + ") \u{2014} press v to toggle "@
}

/// The log panel's title.
pub fn logs_title(verbose: bool) -> (res: String)
    ensures
        res@ == logs_title_text(verbose),
{
    let mut out: Vec<char> = Vec::new();
    push_str(&mut out, " Logs (");
    push_str(&mut out, if verbose { "verbose" } else { "structured" });
    push_str(&mut out, ") \u{2014} press v to toggle ");
    assert(out@ =~= logs_title_text(verbose));
    string_of(&out)
}

/// How many of `total` lines a panel of `height` lines skips, scrolled up
/// by `offset` lines from the bottom.
pub open spec fn window_skip(total: nat, height: nat, offset: nat) -> nat {
    let shown = if offset == 0 {
        height
    } else {
        height + offset
    };
    if total > shown {
        (total - shown) as nat
    } else {
        0
    }
}

/// How many lines a panel skips from the top.
pub fn scroll_skip(total: usize, height: usize, offset: usize) -> (res: usize)
    requires
        height + offset <= usize::MAX,
    ensures
        res == window_skip(total as nat, height as nat, offset as nat),
{
    if offset == 0 {
        total.saturating_sub(height)
    } else {
        total.saturating_sub(height + offset)
    }
}

// ---------------------------------------------------------------------------
// The chat panel
// ---------------------------------------------------------------------------

/// The screen lines of a transcript entry: a user line after `> `, each
/// line of an agent reply, a system line as it is.
pub open spec fn chat_rows_text(l: ChatLine) -> Seq<Seq<char>> {
    match l {
        ChatLine::User(t) => seq!["> "@ + t@],
        ChatLine::Agent(t) => lines_of(t@),
        ChatLine::System(t) => seq![t@],
    }
}

/// The screen lines of a transcript entry.
pub fn chat_line_to_lines(l: &ChatLine) -> (res: Vec<String>)
    ensures
        res@.map_values(|s: String| s@) == chat_rows_text(*l),
{
    match l {
        ChatLine::User(t) => {
            let mut out: Vec<char> = Vec::new();
            push_str(&mut out, "> ");
            push_str(&mut out, t.as_str());
            let mut res: Vec<String> = Vec::new();
            res.push(string_of(&out));
            proof {
                assert(out@ =~= "> "@ + t@);
                assert(res@.map_values(|s: String| s@) =~= chat_rows_text(*l));
            }
            res
        },
        ChatLine::Agent(t) => {
            let cs = chars_of(t.as_str());
            let lines = split_lines(&cs);
            let mut res: Vec<String> = Vec::new();
            let mut i: usize = 0;
            while i < lines.len()
                invariant
                    i <= lines@.len(),
                    res@.len() == i,
                    forall|k: int| 0 <= k < i ==> #[trigger] res@[k]@ == lines@[k]@,
                decreases lines@.len() - i,
            {
                res.push(string_of(&lines[i]));
                i = i + 1;
            }
            proof {
                assert(res@.map_values(|s: String| s@) =~= lines@.map_values(|v: Vec<char>| v@));
            }
            res
        },
        ChatLine::System(t) => {
            let mut res: Vec<String> = Vec::new();
            res.push(t.clone());
            proof {
                assert(res@.map_values(|s: String| s@) =~= chat_rows_text(*l));
            }
            res
        },
    }
}

/// The chat panel's title, with an hourglass while the agent replies.
pub open spec fn chat_title_text(busy: bool) -> Seq<char> {
    if busy {
        " Chat \u{23f3} "@
    } else {
        " Chat "@
    }
}

/// The chat panel's title.
pub fn chat_title(busy: bool) -> (res: &'static str)
    ensures
        res@ == chat_title_text(busy),
{
    if busy {
        " Chat \u{23f3} "
    } else {
        " Chat "
    }
}

/// The display width of a character as `unicode-width` gives it (`None`
/// for control characters).
pub uninterp spec fn unicode_char_width(c: char) -> Option<usize>;

/// The display width of `c`.
///
/// Calls `UnicodeWidthChar::width` of the `unicode-width` crate. The
/// contract names the result and states what its source shows: printable
/// ASCII is one column, the C0 and C1 control codes have no width, and
/// every width comes from a table of bytes.
#[verifier::external_body]
fn char_width(c: char) -> (res: Option<usize>)
    ensures
        res == unicode_char_width(c),
        ' ' <= c < '\u{7f}' ==> res == Some(1usize),
        (c < ' ' || ('\u{7f}' <= c && c < '\u{a0}')) ==> res is None,
        res matches Some(w) ==> w <= 255,
{
    unicode_width::UnicodeWidthChar::width(c)
}

/// The columns taken by the characters `cs`, control characters counting
/// for none.
pub open spec fn columns(cs: Seq<char>) -> int
    decreases cs.len(),
{
    if cs.len() == 0 {
        0
    } else {
        columns(cs.drop_last()) + match unicode_char_width(cs.last()) {
            Some(w) => w as int,
            None => 0,
        }
    }
}

/// The column of the input cursor after the first `cursor` characters of
/// the input, or `None` when that width does not fit in a `u16` (a width
/// the terminal cannot show).
pub fn cursor_columns(input: &str, cursor: usize) -> (res: Option<u16>)
    ensures
        ({
            let n = if cursor < input@.len() {
                cursor as int
            } else {
                input@.len() as int
            };
            match res {
                Some(w) => w == columns(input@.take(n)),
                None => columns(input@.take(n)) > u16::MAX,
            }
        }),
{
    let cs = chars_of(input);
    let n = if cursor < cs.len() {
        cursor
    } else {
        cs.len()
    };
    let mut total: u64 = 0;
    let mut i: usize = 0;
    while i < n
        invariant
            n <= cs@.len(),
            cs@ == input@,
            n == (if cursor < input@.len() {
                cursor as int
            } else {
                input@.len() as int
            }),
            i <= n,
            total == columns(cs@.take(i as int)),
            total <= u16::MAX,
        decreases n - i,
    {
        let cw = char_width(cs[i]);
        let w: u64 = match cw {
            Some(w) => w as u64,
            None => 0,
        };
        proof {
            assert(cs@.take(i + 1).drop_last() =~= cs@.take(i as int));
            assert(cs@.take(i + 1).last() == cs@[i as int]);
        }
        assert(columns(cs@.take(i + 1)) == total + w);
        if total + w > 65535 {
            proof {
                lemma_columns_monotone(cs@, i + 1, n as int);
                assert(cs@ == input@);
            }
            return None;
        }
        total = total + w;
        i = i + 1;
    }
    assert(cs@ == input@);
    Some(total as u16)
}

proof fn lemma_columns_monotone(cs: Seq<char>, a: int, b: int)
    requires
        0 <= a <= b <= cs.len(),
    ensures
        columns(cs.take(a)) <= columns(cs.take(b)),
    decreases b - a,
{
    if a < b {
        lemma_columns_monotone(cs, a, b - 1);
        assert(cs.take(b).drop_last() =~= cs.take(b - 1));
    }
}

} // verus!
