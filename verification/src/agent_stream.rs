//! What becomes of the event stream of an agent's reply: the evolver
//! collects the reply's text, and the UI relays it chunk by chunk. The
//! stream itself is read outside the library, which hands over its events.

use vstd::prelude::*;

use crate::text::{push_str, string_of};
use crate::tui_event::AgentMsg;

verus! {

/// One event of a reply stream, as far as the reply's text goes.
pub enum StreamEvent {
    /// A message of the assistant with this text (its text parts joined).
    AssistantText(String),
    /// Any other event (tool calls, other roles, notifications).
    Other,
    /// The stream failed with this error.
    Failed(String),
}

/// The text of the events before the first failure, and that failure's
/// error, if any.
pub open spec fn collected(events: Seq<StreamEvent>) -> (Seq<char>, Option<Seq<char>>)
    decreases events.len(),
{
    if events.len() == 0 {
        (Seq::empty(), None)
    } else {
        let (t, e) = collected(events.drop_last());
        match e {
            Some(_) => (t, e),
            None => match events.last() {
                StreamEvent::AssistantText(s) => (t + s@, None),
                StreamEvent::Other => (t, None),
                StreamEvent::Failed(err) => (t, Some(err@)),
            },
        }
    }
}

/// The evolver's reading of a reply: the whole text, or the first error.
pub fn collect_reply(events: &Vec<StreamEvent>) -> (res: Result<String, String>)
    ensures
        match collected(events@).1 {
            Some(e) => res matches Err(r) && r@ == e,
            None => res matches Ok(t) && t@ == collected(events@).0,
        },
{
    let mut text: Vec<char> = Vec::new();
    let mut i: usize = 0;
    while i < events.len()
        invariant
            i <= events@.len(),
            collected(events@.take(i as int)) == (text@, None::<Seq<char>>),
        decreases events@.len() - i,
    {
        proof {
            assert(events@.take(i + 1).drop_last() =~= events@.take(i as int));
        }
        match &events[i] {
            StreamEvent::AssistantText(s) => {
                push_str(&mut text, s.as_str());
            },
            StreamEvent::Other => {},
            StreamEvent::Failed(e) => {
                proof {
                    lemma_collected_stops(events@, i as int + 1);
                }
                return Err(e.clone());
            },
        }
        i = i + 1;
    }
    assert(events@.take(events@.len() as int) =~= events@);
    Ok(string_of(&text))
}

proof fn lemma_collected_stops(events: Seq<StreamEvent>, n: int)
    requires
        0 < n <= events.len(),
        collected(events.take(n)).1 is Some,
    ensures
        collected(events) == collected(events.take(n)),
    decreases events.len() - n,
{
    if n < events.len() {
        assert(events.take(n + 1).drop_last() =~= events.take(n));
        lemma_collected_stops(events, n + 1);
    } else {
        assert(events.take(n) =~= events);
    }
}

/// The UI message for a failed stream.
pub open spec fn stream_error_text(e: Seq<char>) -> Seq<char> {
    "\n\u{26a0} Stream error: "@ + e
}

/// The UI message for a reply that could not start.
pub open spec fn start_error_text(e: Seq<char>) -> Seq<char> {
    "Error: "@ + e
}

/// Whether an agent message is the text `t`.
pub open spec fn is_text(m: AgentMsg, t: Seq<char>) -> bool {
    m matches AgentMsg::Text(s) && s@ == t
}

/// The texts the UI relays for the events of a reply: each assistant
/// text, then the error of a failure, which ends the relay.
pub open spec fn relayed(events: Seq<StreamEvent>) -> Seq<Seq<char>>
    decreases events.len(),
{
    if events.len() == 0 {
        Seq::empty()
    } else {
        match events[0] {
            StreamEvent::AssistantText(s) => seq![s@] + relayed(events.drop_first()),
            StreamEvent::Other => relayed(events.drop_first()),
            StreamEvent::Failed(e) => seq![stream_error_text(e@)],
        }
    }
}

/// The messages the UI receives for a reply that started: the relayed
/// texts, then the end of the reply.
pub fn relay_reply(events: Vec<StreamEvent>) -> (res: Vec<AgentMsg>)
    ensures
        res@.len() == relayed(events@).len() + 1,
        forall|k: int| 0 <= k < relayed(events@).len() ==> is_text(#[trigger] res@[k], relayed(events@)[k]),
        res@.last() is Done,
{
    let ghost all = events@;
    let mut rest = events;
    let mut out: Vec<AgentMsg> = Vec::new();
    let ghost mut i: int = 0;
    assert(all.skip(0) =~= all);
    while rest.len() > 0
        invariant
            all == events@,
            0 <= i <= all.len(),
            rest@ == all.skip(i as int),
            relayed(all) == out_texts(out@) + relayed(rest@),
            forall|k: int| 0 <= k < out@.len() ==> #[trigger] out@[k] is Text,
        decreases rest@.len(),
    {
        let ghost before = rest@;
        let ev = rest.remove(0);
        assert(rest@ =~= before.drop_first());
        assert(ev == before[0]);
        match ev {
            StreamEvent::AssistantText(s) => {
                let ghost t = s@;
                let ghost prev = out@;
                out.push(AgentMsg::Text(s));
                proof {
                    lemma_out_texts_push(prev, AgentMsg::Text(string_with_view(t)), t);
                    assert(out_texts(out@) == out_texts(prev).push(t));
                    assert(out_texts(prev) + (seq![t] + relayed(rest@)) =~= out_texts(prev).push(t)
                        + relayed(rest@));
                }
            },
            StreamEvent::Other => {},
            StreamEvent::Failed(e) => {
                let mut m: Vec<char> = Vec::new();
                push_str(&mut m, "\n\u{26a0} Stream error: ");
                push_str(&mut m, e.as_str());
                let ghost prev = out@;
                let msg = string_of(&m);
                let ghost mt = msg@;
                out.push(AgentMsg::Text(msg));
                proof {
                    assert(mt == stream_error_text(e@));
                    lemma_out_texts_push(prev, out@.last(), mt);
                    assert(relayed(all) =~= out_texts(out@));
                }
                let ghost done_before = out@;
                out.push(AgentMsg::Done);
                proof {
                    lemma_relay_result(done_before, out@, relayed(all));
                }
                return out;
            },
        }
        proof {
            i = i + 1;
        }
        assert(rest@ =~= all.skip(i as int));
    }
    assert(relayed(rest@) =~= Seq::<Seq<char>>::empty());
    assert(out_texts(out@) + Seq::<Seq<char>>::empty() =~= out_texts(out@));
    let ghost done_before = out@;
    out.push(AgentMsg::Done);
    proof {
        lemma_relay_result(done_before, out@, relayed(all));
    }
    out
}

/// Some string with exactly the characters `s`.
pub open spec fn string_with_view(s: Seq<char>) -> String {
    choose|r: String| r@ == s
}

/// The texts of a list of text messages.
pub open spec fn out_texts(msgs: Seq<AgentMsg>) -> Seq<Seq<char>> {
    msgs.map_values(
        |m: AgentMsg| match m {
            AgentMsg::Text(s) => s@,
            AgentMsg::Done => Seq::empty(),
        },
    )
}

proof fn lemma_out_texts_push(prev: Seq<AgentMsg>, m: AgentMsg, t: Seq<char>)
    requires
        is_text(m, t),
    ensures
        out_texts(prev.push(m)) == out_texts(prev).push(t),
{
    assert(out_texts(prev.push(m)) =~= out_texts(prev).push(t));
}

proof fn lemma_relay_result(before: Seq<AgentMsg>, after: Seq<AgentMsg>, texts: Seq<Seq<char>>)
    requires
        after == before.push(AgentMsg::Done),
        texts == out_texts(before),
        forall|k: int| 0 <= k < before.len() ==> #[trigger] before[k] is Text,
    ensures
        after.len() == texts.len() + 1,
        forall|k: int| 0 <= k < texts.len() ==> is_text(#[trigger] after[k], texts[k]),
        after.last() is Done,
{
    assert forall|k: int| 0 <= k < texts.len() implies is_text(#[trigger] after[k], texts[k]) by {
        assert(after[k] == before[k]);
        assert(before[k] is Text);
    }
}

/// The messages the UI receives for a reply that could not start: the
/// error, then the end of the reply.
pub fn reply_failed_to_start(error: &str) -> (res: Vec<AgentMsg>)
    ensures
        res@.len() == 2,
        is_text(res@[0], start_error_text(error@)),
        res@[1] is Done,
{
    let mut m: Vec<char> = Vec::new();
    push_str(&mut m, "Error: ");
    push_str(&mut m, error);
    let mut out: Vec<AgentMsg> = Vec::new();
    out.push(AgentMsg::Text(string_of(&m)));
    out.push(AgentMsg::Done);
    out
}

} // verus!
