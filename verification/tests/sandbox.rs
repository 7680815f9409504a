use opengoose::sandbox::{check_outcome, checks_for, project_kind, ProjectKind};

#[test]
fn project_kinds_and_plans() {
    assert_eq!(project_kind(true, true), Some(ProjectKind::Cargo));
    assert_eq!(project_kind(false, true), Some(ProjectKind::Npm));
    assert_eq!(project_kind(false, false), None);
    let cargo = checks_for(ProjectKind::Cargo);
    assert_eq!(cargo.len(), 2);
    assert_eq!(cargo[0].label, "cargo check");
    assert_eq!(cargo[0].args, vec!["check", "--message-format=short"]);
    assert_eq!(cargo[0].timeout_secs, 120);
    assert_eq!(cargo[1].args, vec!["test"]);
    assert_eq!(cargo[1].timeout_secs, 300);
    let npm = checks_for(ProjectKind::Npm);
    assert_eq!(npm.len(), 1);
    assert_eq!(npm[0].program, "npm");
    assert_eq!(npm[0].args, vec!["test", "--", "--passWithNoTests"]);
}

#[test]
fn failure_reports() {
    assert_eq!(check_outcome("cargo check", 0, "x", "y"), None);
    assert_eq!(check_outcome("cargo check", 1, "", "err"), Some("cargo check failed:\nerr".to_string()));
    assert_eq!(check_outcome("npm test", 2, "out", "err"), Some("npm test failed:\nout\nerr".to_string()));
}
