use opengoose::agent_stream::{collect_reply, relay_reply, reply_failed_to_start, StreamEvent};
use opengoose::tui_event::AgentMsg;

fn texts(msgs: &[AgentMsg]) -> Vec<String> {
    msgs.iter()
        .map(|m| match m {
            AgentMsg::Text(t) => t.clone(),
            AgentMsg::Done => "<done>".to_string(),
        })
        .collect()
}

#[test]
fn collect_joins_text_until_failure() {
    let events = vec![
        StreamEvent::AssistantText("Hel".into()),
        StreamEvent::Other,
        StreamEvent::AssistantText("lo".into()),
    ];
    assert_eq!(collect_reply(&events), Ok("Hello".to_string()));
    let failing = vec![
        StreamEvent::AssistantText("a".into()),
        StreamEvent::Failed("boom".into()),
        StreamEvent::AssistantText("b".into()),
    ];
    assert_eq!(collect_reply(&failing), Err("boom".to_string()));
    assert_eq!(collect_reply(&vec![]), Ok(String::new()));
}

#[test]
fn relay_forwards_text_and_ends() {
    let msgs = relay_reply(vec![
        StreamEvent::AssistantText("a".into()),
        StreamEvent::Other,
        StreamEvent::Failed("lost".into()),
        StreamEvent::AssistantText("never".into()),
    ]);
    assert_eq!(texts(&msgs), vec!["a", "\n⚠ Stream error: lost", "<done>"]);
    assert_eq!(texts(&relay_reply(vec![])), vec!["<done>"]);
    assert_eq!(texts(&reply_failed_to_start("no model")), vec!["Error: no model", "<done>"]);
}
