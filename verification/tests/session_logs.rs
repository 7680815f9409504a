use opengoose::session_logs::session_logs_to_remove;

fn names(v: &[&str]) -> Vec<String> {
    v.iter().map(|s| s.to_string()).collect()
}

#[test]
fn cleanup_old_logs_removes_excess() {
    // Five session logs, keep three: the two oldest go, oldest first.
    let n = names(&["c.log", "a.log", "e.log", "b.log", "d.log"]);
    let m = vec![Some(30), Some(10), Some(50), Some(20), Some(40)];
    assert_eq!(session_logs_to_remove(&n, &m, 3), vec![1, 3]);
}

#[test]
fn cleanup_old_logs_noop_when_under_limit() {
    let n = names(&["a.log", "b.log"]);
    let m = vec![Some(1), Some(2)];
    assert!(session_logs_to_remove(&n, &m, 5).is_empty());
    assert!(session_logs_to_remove(&n, &m, 2).is_empty());
}

#[test]
fn cleanup_old_logs_in_skips_non_log_files() {
    let n = names(&["README.txt", "old.log", "data.json", "new.log", ".log", "x.logs"]);
    let m = vec![Some(0), Some(5), Some(1), Some(9), Some(2), Some(3)];
    // Only `old.log` and `new.log` are session logs; keep one.
    assert_eq!(session_logs_to_remove(&n, &m, 1), vec![1]);
}

#[test]
fn unreadable_times_go_first_and_ties_keep_listing_order() {
    let n = names(&["a.log", "b.log", "c.log", "d.log"]);
    let m = vec![Some(7), None, Some(7), Some(-3)];
    assert_eq!(session_logs_to_remove(&n, &m, 0), vec![1, 3, 0, 2]);
    assert_eq!(session_logs_to_remove(&n, &m, 2), vec![1, 3]);
}

#[test]
fn keep_zero_removes_every_session_log() {
    let n = names(&["x.log", "notes.md"]);
    let m = vec![Some(1), Some(0)];
    assert_eq!(session_logs_to_remove(&n, &m, 0), vec![0]);
}
