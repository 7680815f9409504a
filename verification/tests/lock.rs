use opengoose::lock::{
    lock_path_in,
    accept_lock, add_entry, empty_lock, entry_of, remove_entry, SkillLockEntry, SkillLockFile,
    LOCK_VERSION,
};

fn entry(source: &str) -> SkillLockEntry {
    SkillLockEntry {
        source: source.to_string(),
        source_type: "github".to_string(),
        source_url: format!("https://github.com/{source}.git"),
        skill_path: Some("skills/test-skill".to_string()),
        skill_folder_hash: "abc123".to_string(),
        installed_at: "2026-03-19T10:00:00Z".to_string(),
        updated_at: "2026-03-19T10:00:00Z".to_string(),
        plugin_name: None,
    }
}

#[test]
fn empty_lock_has_version_3() {
    let lock = empty_lock();
    assert_eq!(lock.version, 3);
    assert!(lock.skills.is_empty());
}

#[test]
fn add_then_lookup_then_remove() {
    let mut lock = empty_lock();
    add_entry(&mut lock, "test-skill", entry("owner/repo"));
    assert_eq!(lock.skills.len(), 1);
    assert_eq!(entry_of(&lock, "test-skill").unwrap().source, "owner/repo");
    add_entry(&mut lock, "test-skill", entry("other/repo"));
    assert_eq!(lock.skills.len(), 1);
    assert_eq!(entry_of(&lock, "test-skill").unwrap().source, "other/repo");
    add_entry(&mut lock, "second", entry("x/y"));
    assert_eq!(lock.skills.len(), 2);
    assert!(remove_entry(&mut lock, "test-skill"));
    assert!(entry_of(&lock, "test-skill").is_none());
    assert!(!remove_entry(&mut lock, "test-skill"));
    assert_eq!(entry_of(&lock, "second").unwrap().source, "x/y");
}

#[test]
fn old_or_missing_lock_files_start_empty() {
    let mut old = empty_lock();
    old.version = 2;
    add_entry(&mut old, "s", entry("a/b"));
    let accepted = accept_lock(Some(old));
    assert_eq!(accepted.version, LOCK_VERSION);
    assert!(accepted.skills.is_empty());
    let none = accept_lock(None);
    assert!(none.skills.is_empty());
    let mut current = SkillLockFile { version: 4, skills: Vec::new(), extra: vec![("dismissed".into(), "{}".into())] };
    add_entry(&mut current, "s", entry("a/b"));
    let kept = accept_lock(Some(current));
    assert_eq!(kept.version, 4);
    assert_eq!(kept.skills.len(), 1);
    assert_eq!(kept.extra.len(), 1);
}

#[test]
fn lock_path_follows_xdg_state_home() {
    assert_eq!(lock_path_in(Some("/state"), "/home/u"), "/state/skills/.skill-lock.json");
    assert_eq!(lock_path_in(None, "/home/u"), "/home/u/.agents/.skill-lock.json");
}
