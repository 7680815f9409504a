//! What the `board` subcommand prints: the board overview, the claimable
//! items, sub-tasks, and the confirmation of each action. Querying and
//! changing the board happens outside the library.

use vstd::prelude::*;

use crate::panels::priority_text;
use crate::text::{decimal, int_decimal, push_decimal, push_i64, push_str, string_of};
use crate::tui_app::{Priority, Status, WorkItem};

verus! {

/// `#id "title"` of an item.
pub open spec fn id_title(item: WorkItem) -> Seq<char> {
    "#"@ + int_decimal(item.id as int) + " \""@ + item.title@ + "\""@
}

fn push_id_title(out: &mut Vec<char>, item: &WorkItem)
    ensures
        final(out)@ == old(out)@ + id_title(*item),
{
    push_str(out, "#");
    push_i64(out, item.id);
    push_str(out, " \"");
    push_str(out, item.title.as_str());
    push_str(out, "\"");
    assert(final(out)@ =~= old(out)@ + id_title(*item));
}

fn priority_name(p: Priority) -> (res: &'static str)
    ensures
        res@ == priority_text(p),
{
    match p {
        Priority::P0 => "P0",
        Priority::P1 => "P1",
        Priority::P2 => "P2",
    }
}

/// A claimable item: `#id P1 "title"`.
pub open spec fn ready_line_text(item: WorkItem) -> Seq<char> {
    "#"@ + int_decimal(item.id as int) + " "@ + priority_text(item.priority) + " \""@ + item.title@
        + "\""@
}

/// What `board ready` prints for the claimable items.
pub open spec fn ready_report(items: Seq<WorkItem>) -> Seq<Seq<char>> {
    if items.len() == 0 {
        seq!["No claimable items."@]
    } else {
        items.map_values(|i: WorkItem| ready_line_text(i))
    }
}

fn ready_line(item: &WorkItem) -> (res: String)
    ensures
        res@ == ready_line_text(*item),
{
    let mut out: Vec<char> = Vec::new();
    push_str(&mut out, "#");
    push_i64(&mut out, item.id);
    push_str(&mut out, " ");
    push_str(&mut out, priority_name(item.priority));
    push_str(&mut out, " \"");
    push_str(&mut out, item.title.as_str());
    push_str(&mut out, "\"");
    assert(out@ =~= ready_line_text(*item));
    string_of(&out)
}

/// The lines `board ready` prints.
pub fn ready_lines(items: &[WorkItem]) -> (res: Vec<String>)
    ensures
        res@.map_values(|s: String| s@) == ready_report(items@),
{
    let mut res: Vec<String> = Vec::new();
    if items.len() == 0 {
        res.push("No claimable items.".to_string());
        assert(res@.map_values(|s: String| s@) =~= ready_report(items@));
        return res;
    }
    let mut i: usize = 0;
    while i < items.len()
        invariant
            i <= items@.len(),
            res@.len() == i,
            forall|k: int| 0 <= k < i ==> #[trigger] res@[k]@ == ready_line_text(items@[k]),
        decreases items@.len() - i,
    {
        res.push(ready_line(&items[i]));
        i = i + 1;
    }
    assert(res@.map_values(|s: String| s@) =~= ready_report(items@));
    res
}

/// The confirmation of an action on an item: `Claimed #id: "title"`.
pub open spec fn action_line_text(verb: Seq<char>, item: WorkItem) -> Seq<char> {
    verb + " #"@ + int_decimal(item.id as int) + ": \""@ + item.title@ + "\""@
}

/// The confirmation of `verb` (`Claimed`, `Completed`, `Abandoned`) on an
/// item.
pub fn action_line(verb: &str, item: &WorkItem) -> (res: String)
    ensures
        res@ == action_line_text(verb@, *item),
{
    let mut out: Vec<char> = Vec::new();
    push_str(&mut out, verb);
    push_str(&mut out, " #");
    push_i64(&mut out, item.id);
    push_str(&mut out, ": \"");
    push_str(&mut out, item.title.as_str());
    push_str(&mut out, "\"");
    assert(out@ =~= action_line_text(verb@, *item));
    string_of(&out)
}

/// The confirmation of a created item: `Created #id: "title" (P1)`.
pub open spec fn created_line_text(item: WorkItem) -> Seq<char> {
    action_line_text("Created"@, item) + " ("@ + priority_text(item.priority) + ")"@
}

/// The confirmation of a created item.
pub fn created_line(item: &WorkItem) -> (res: String)
    ensures
        res@ == created_line_text(*item),
{
    let first = action_line("Created", item);
    let mut out: Vec<char> = crate::text::chars_of(first.as_str());
    push_str(&mut out, " (");
    push_str(&mut out, priority_name(item.priority));
    push_str(&mut out, ")");
    assert(out@ =~= created_line_text(*item));
    string_of(&out)
}

/// The heading of `board children`: none, or the parent's sub-task list.
pub open spec fn children_heading_text(parent: i64, count: nat) -> Seq<char> {
    if count == 0 {
        "No sub-tasks for #"@ + int_decimal(parent as int)
    } else {
        "Sub-tasks for #"@ + int_decimal(parent as int) + ":"@
    }
}

/// The heading of `board children`.
pub fn children_heading(parent: i64, count: usize) -> (res: String)
    ensures
        res@ == children_heading_text(parent, count as nat),
{
    let mut out: Vec<char> = Vec::new();
    if count == 0 {
        push_str(&mut out, "No sub-tasks for #");
        push_i64(&mut out, parent);
    } else {
        push_str(&mut out, "Sub-tasks for #");
        push_i64(&mut out, parent);
        push_str(&mut out, ":");
    }
    assert(out@ =~= children_heading_text(parent, count as nat));
    string_of(&out)
}

/// A sub-task line, with the board's name for its status.
pub open spec fn child_line_text(item: WorkItem, status: Seq<char>) -> Seq<char> {
    "  #"@ + int_decimal(item.id as int) + " "@ + priority_text(item.priority) + " ["@ + status
        + "] \""@ + item.title@ + "\""@
}

/// A sub-task line; `status` is how the board names the item's status.
pub fn child_line(item: &WorkItem, status: &str) -> (res: String)
    ensures
        res@ == child_line_text(*item, status@),
{
    let mut out: Vec<char> = Vec::new();
    push_str(&mut out, "  #");
    push_i64(&mut out, item.id);
    push_str(&mut out, " ");
    push_str(&mut out, priority_name(item.priority));
    push_str(&mut out, " [");
    push_str(&mut out, status);
    push_str(&mut out, "] \"");
    push_str(&mut out, item.title.as_str());
    push_str(&mut out, "\"");
    assert(out@ =~= child_line_text(*item, status@));
    string_of(&out)
}

/// The rig a stamp is for: the one that claimed the item, else its creator.
pub open spec fn stamp_target_of(item: WorkItem) -> Seq<char> {
    match item.claimed_by {
        Some(r) => r@,
        None => item.created_by@,
    }
}

/// The rig a stamp on `item` is for.
pub fn stamp_target(item: &WorkItem) -> (res: &str)
    ensures
        res@ == stamp_target_of(*item),
{
    match &item.claimed_by {
        Some(r) => r.as_str(),
        None => item.created_by.as_str(),
    }
}

// ---------------------------------------------------------------------------
// The overview
// ---------------------------------------------------------------------------

/// The items with status `s`, in board order.
pub open spec fn with_status(items: Seq<WorkItem>, s: Status) -> Seq<WorkItem> {
    items.filter(|i: WorkItem| i.status == s)
}

/// An open item's line.
pub open spec fn open_line_text(item: WorkItem) -> Seq<char> {
    "  \u{25cb} "@ + ready_line_text(item)
}

/// A claimed item's line, naming who claimed it (`?` when unknown).
pub open spec fn claimed_line_text(item: WorkItem) -> Seq<char> {
    "  \u{25cf} "@ + id_title(item) + " (by "@ + match item.claimed_by {
        Some(r) => r@,
        None => "?"@,
    } + ")"@
}

/// A done item's line.
pub open spec fn done_line_text(item: WorkItem) -> Seq<char> {
    "  \u{2713} "@ + id_title(item)
}

/// The first `n` entries of `s`, or all of them.
pub open spec fn at_most<A>(s: Seq<A>, n: int) -> Seq<A> {
    if s.len() <= n {
        s
    } else {
        s.take(n)
    }
}

/// What `board status` prints: the counts, then the open items, the
/// claimed items, and the five latest done items (latest first), each
/// section only when it has items.
pub open spec fn board_report(items: Seq<WorkItem>) -> Seq<Seq<char>> {
    let open = with_status(items, Status::Open);
    let claimed = with_status(items, Status::Claimed);
    let done = with_status(items, Status::Done);
    seq![
        "Board: "@ + decimal(open.len()) + " open \u{b7} "@ + decimal(claimed.len())
            + " claimed \u{b7} "@ + decimal(done.len()) + " done"@,
    ] + (if open.len() > 0 {
        seq!["\nOpen:"@] + open.map_values(|i: WorkItem| open_line_text(i))
    } else {
        Seq::empty()
    }) + (if claimed.len() > 0 {
        seq!["\nClaimed:"@] + claimed.map_values(|i: WorkItem| claimed_line_text(i))
    } else {
        Seq::empty()
    }) + (if done.len() > 0 {
        seq!["\nDone (recent):"@] + at_most(done.reverse(), 5).map_values(
            |i: WorkItem| done_line_text(i),
        )
    } else {
        Seq::empty()
    })
}

fn item_line(item: &WorkItem, s: Status) -> (res: String)
    ensures
        s == Status::Open ==> res@ == open_line_text(*item),
        s == Status::Claimed ==> res@ == claimed_line_text(*item),
        s == Status::Done ==> res@ == done_line_text(*item),
{
    let mut out: Vec<char> = Vec::new();
    match s {
        Status::Open => {
            push_str(&mut out, "  \u{25cb} ");
            let l = ready_line(item);
            push_str(&mut out, l.as_str());
        },
        Status::Claimed => {
            push_str(&mut out, "  \u{25cf} ");
            push_id_title(&mut out, item);
            push_str(&mut out, " (by ");
            match &item.claimed_by {
                Some(r) => push_str(&mut out, r.as_str()),
                None => push_str(&mut out, "?"),
            }
            push_str(&mut out, ")");
        },
        _ => {
            push_str(&mut out, "  \u{2713} ");
            push_id_title(&mut out, item);
        },
    }
    proof {
        if s == Status::Open {
            assert(out@ =~= open_line_text(*item));
        } else if s == Status::Claimed {
            assert(out@ =~= claimed_line_text(*item));
        } else if s == Status::Done {
            assert(out@ =~= done_line_text(*item));
        }
    }
    string_of(&out)
}

fn items_with_status<'a>(items: &'a [WorkItem], s: Status) -> (res: Vec<&'a WorkItem>)
    ensures
        res@.map_values(|w: &WorkItem| *w) == with_status(items@, s),
{
    let mut out: Vec<&WorkItem> = Vec::new();
    let mut i: usize = 0;
    while i < items.len()
        invariant
            i <= items@.len(),
            out@.map_values(|w: &WorkItem| *w) == items@.take(i as int).filter(
                |j: WorkItem| j.status == s,
            ),
        decreases items@.len() - i,
    {
        proof {
            reveal_with_fuel(Seq::<_>::filter, 1);
            assert(items@.take(i + 1).drop_last() =~= items@.take(i as int));
        }
        let ghost prev = out@.map_values(|w: &WorkItem| *w);
        if items[i].status == s {
            out.push(&items[i]);
            assert(out@.map_values(|w: &WorkItem| *w) =~= prev.push(items@[i as int]));
        }
        i = i + 1;
    }
    assert(items@.take(items@.len() as int) =~= items@);
    out
}

/// The lines `board status` prints.
#[verifier::rlimit(30)]
pub fn board_overview(items: &[WorkItem]) -> (res: Vec<String>)
    ensures
        res@.map_values(|s: String| s@) == board_report(items@),
{
    let open = items_with_status(items, Status::Open);
    let claimed = items_with_status(items, Status::Claimed);
    let done = items_with_status(items, Status::Done);
    let ghost ov = with_status(items@, Status::Open);
    let ghost cv = with_status(items@, Status::Claimed);
    let ghost dv = with_status(items@, Status::Done);
    assert(open@.len() == ov.len());
    assert(claimed@.len() == cv.len());
    assert(done@.len() == dv.len());
    let mut head: Vec<char> = Vec::new();
    push_str(&mut head, "Board: ");
    push_decimal(&mut head, open.len() as u64);
    push_str(&mut head, " open \u{b7} ");
    push_decimal(&mut head, claimed.len() as u64);
    push_str(&mut head, " claimed \u{b7} ");
    push_decimal(&mut head, done.len() as u64);
    push_str(&mut head, " done");
    let mut res: Vec<String> = Vec::new();
    res.push(string_of(&head));
    let ghost part1 = seq![
        "Board: "@ + decimal(ov.len()) + " open \u{b7} "@ + decimal(cv.len())
            + " claimed \u{b7} "@ + decimal(dv.len()) + " done"@,
    ];
    assert(res@.map_values(|s: String| s@) =~= part1);
    let ghost part2 = if ov.len() > 0 {
        seq!["\nOpen:"@] + ov.map_values(|i: WorkItem| open_line_text(i))
    } else {
        Seq::empty()
    };
    if open.len() > 0 {
        res.push("\nOpen:".to_string());
        let mut i: usize = 0;
        while i < open.len()
            invariant
                i <= open@.len(),
                open@.map_values(|w: &WorkItem| *w) == ov,
                res@.map_values(|s: String| s@) == part1 + seq!["\nOpen:"@] + ov.take(
                    i as int,
                ).map_values(|i: WorkItem| open_line_text(i)),
            decreases open@.len() - i,
        {
            let l = item_line(open[i], Status::Open);
            let ghost prev = res@.map_values(|s: String| s@);
            res.push(l);
            proof {
                assert(open@.map_values(|w: &WorkItem| *w)[i as int] == *open@[i as int]);
                assert(ov.take(i + 1).map_values(|i: WorkItem| open_line_text(i)) =~= ov.take(
                    i as int,
                ).map_values(|i: WorkItem| open_line_text(i)).push(open_line_text(ov[i as int])));
                assert(res@.map_values(|s: String| s@) =~= prev.push(l@));
            }
            i = i + 1;
        }
        assert(ov.take(ov.len() as int) =~= ov);
    }
    assert(res@.map_values(|s: String| s@) =~= part1 + part2);
    let ghost part3 = if cv.len() > 0 {
        seq!["\nClaimed:"@] + cv.map_values(|i: WorkItem| claimed_line_text(i))
    } else {
        Seq::empty()
    };
    if claimed.len() > 0 {
        res.push("\nClaimed:".to_string());
        let mut i: usize = 0;
        while i < claimed.len()
            invariant
                i <= claimed@.len(),
                claimed@.map_values(|w: &WorkItem| *w) == cv,
                res@.map_values(|s: String| s@) == part1 + part2 + seq!["\nClaimed:"@] + cv.take(
                    i as int,
                ).map_values(|i: WorkItem| claimed_line_text(i)),
            decreases claimed@.len() - i,
        {
            let l = item_line(claimed[i], Status::Claimed);
            let ghost prev = res@.map_values(|s: String| s@);
            res.push(l);
            proof {
                assert(claimed@.map_values(|w: &WorkItem| *w)[i as int] == *claimed@[i as int]);
                assert(cv.take(i + 1).map_values(|i: WorkItem| claimed_line_text(i)) =~= cv.take(
                    i as int,
                ).map_values(|i: WorkItem| claimed_line_text(i)).push(
                    claimed_line_text(cv[i as int]),
                ));
                assert(res@.map_values(|s: String| s@) =~= prev.push(l@));
            }
            i = i + 1;
        }
        assert(cv.take(cv.len() as int) =~= cv);
    }
    assert(res@.map_values(|s: String| s@) =~= part1 + part2 + part3);
    let ghost recent = at_most(dv.reverse(), 5);
    let ghost part4 = if dv.len() > 0 {
        seq!["\nDone (recent):"@] + recent.map_values(|i: WorkItem| done_line_text(i))
    } else {
        Seq::empty()
    };
    if done.len() > 0 {
        res.push("\nDone (recent):".to_string());
        let n = done.len();
        let shown: usize = if n < 5 {
            n
        } else {
            5
        };
        let mut k: usize = 0;
        while k < shown
            invariant
                n == done@.len(),
                n == dv.len(),
                shown <= n,
                shown == recent.len(),
                k <= shown,
                done@.map_values(|w: &WorkItem| *w) == dv,
                recent == at_most(dv.reverse(), 5),
                res@.map_values(|s: String| s@) == part1 + part2 + part3 + seq![
                    "\nDone (recent):"@,
                ] + recent.take(k as int).map_values(|i: WorkItem| done_line_text(i)),
            decreases shown - k,
        {
            let item = done[n - 1 - k];
            let l = item_line(item, Status::Done);
            let ghost prev = res@.map_values(|s: String| s@);
            res.push(l);
            proof {
                assert(done@.map_values(|w: &WorkItem| *w)[n - 1 - k] == *done@[n - 1 - k]);
                assert(recent[k as int] == dv.reverse()[k as int]);
                assert(dv.reverse()[k as int] == dv[n - 1 - k]);
                assert(recent.take(k + 1).map_values(|i: WorkItem| done_line_text(i))
                    =~= recent.take(k as int).map_values(|i: WorkItem| done_line_text(i)).push(
                    done_line_text(recent[k as int]),
                ));
                assert(res@.map_values(|s: String| s@) =~= prev.push(l@));
            }
            k = k + 1;
        }
        assert(recent.take(recent.len() as int) =~= recent);
    }
    assert(res@.map_values(|s: String| s@) =~= part1 + part2 + part3 + part4);
    res
}

} // verus!
