use opengoose::board_cli::{
    action_line, board_overview, child_line, children_heading, created_line, ready_lines,
    stamp_target,
};
use opengoose::tui_app::{Priority, Status, WorkItem};

fn item(id: i64, title: &str, status: Status, priority: Priority, claimed_by: Option<&str>) -> WorkItem {
    WorkItem {
        id,
        title: title.into(),
        description: String::new(),
        created_by: "creator".into(),
        status,
        priority,
        tags: vec![],
        claimed_by: claimed_by.map(|s| s.to_string()),
    }
}

#[test]
fn overview_lists_sections() {
    let mut items = vec![
        item(1, "open one", Status::Open, Priority::P1, None),
        item(2, "claimed one", Status::Claimed, Priority::P0, Some("r1")),
        item(3, "claimed two", Status::Claimed, Priority::P2, None),
        item(4, "abandoned", Status::Abandoned, Priority::P1, None),
    ];
    for id in 10..17 {
        items.push(item(id, &format!("done {id}"), Status::Done, Priority::P1, None));
    }
    let lines = board_overview(&items);
    assert_eq!(
        lines,
        vec![
            "Board: 1 open · 2 claimed · 7 done",
            "\nOpen:",
            "  ○ #1 P1 \"open one\"",
            "\nClaimed:",
            "  ● #2 \"claimed one\" (by r1)",
            "  ● #3 \"claimed two\" (by ?)",
            "\nDone (recent):",
            "  ✓ #16 \"done 16\"",
            "  ✓ #15 \"done 15\"",
            "  ✓ #14 \"done 14\"",
            "  ✓ #13 \"done 13\"",
            "  ✓ #12 \"done 12\"",
        ]
    );
    assert_eq!(board_overview(&[]), vec!["Board: 0 open · 0 claimed · 0 done"]);
}

#[test]
fn ready_and_action_lines() {
    assert_eq!(ready_lines(&[]), vec!["No claimable items."]);
    let it = item(5, "Task", Status::Open, Priority::P2, None);
    assert_eq!(ready_lines(&[it.clone()]), vec!["#5 P2 \"Task\""]);
    assert_eq!(action_line("Claimed", &it), "Claimed #5: \"Task\"");
    assert_eq!(created_line(&it), "Created #5: \"Task\" (P2)");
    assert_eq!(children_heading(5, 0), "No sub-tasks for #5");
    assert_eq!(children_heading(5, 2), "Sub-tasks for #5:");
    assert_eq!(child_line(&it, "Open"), "  #5 P2 [Open] \"Task\"");
    assert_eq!(stamp_target(&it), "creator");
    let claimed = item(6, "T", Status::Claimed, Priority::P1, Some("worker-9"));
    assert_eq!(stamp_target(&claimed), "worker-9");
    assert_eq!(action_line("Abandoned", &item(-3, "neg", Status::Open, Priority::P1, None)), "Abandoned #-3: \"neg\"");
}
