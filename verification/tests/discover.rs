use opengoose::discover::{
    discover_skills, install_base, lock_entry_for, name_mismatch_warning, parse_skill_md,
    search_path, select_skills, skip_dir, standard_dirs, within_scan_depth, DiscoveredSkill,
    SkillSelection,
};
use opengoose::frontmatter::{extract_frontmatter, parse_frontmatter, split_lines};
use opengoose::source::parse_source;

fn found(name: &str, description: &str) -> DiscoveredSkill {
    DiscoveredSkill {
        name: name.into(),
        description: description.into(),
        rel_path: format!("skills/{name}"),
        abs_path: format!("/repo/skills/{name}"),
    }
}

fn mock_skill(name: &str) -> DiscoveredSkill {
    DiscoveredSkill {
        name: name.into(),
        description: format!("description of {name}"),
        rel_path: name.into(),
        abs_path: name.into(),
    }
}

#[test]
fn parse_frontmatter_with_colons() {
    let content = "---\nname: my-skill\ndescription: Use when: user asks about PDFs\n---\n";
    let fm = extract_frontmatter(content).unwrap();
    let parsed = parse_frontmatter(&fm).unwrap();
    assert_eq!(parsed.name.unwrap(), "my-skill");
    assert!(parsed.description.unwrap().contains("PDFs"));
}

#[test]
fn discover_deduplicates_by_name() {
    let skills = discover_skills(vec![found("dup", "First"), found("dup", "Second")]);
    assert_eq!(skills.len(), 1);
    assert_eq!(skills[0].description, "First");
}

#[test]
fn discover_finds_skills_in_standard_dirs() {
    let content = "---\nname: my-skill\ndescription: A test skill\n---\n# my-skill\n";
    let skill = parse_skill_md(content, Some("my-skill"), "skills/my-skill", "/r/skills/my-skill", false)
        .unwrap();
    assert_eq!(skill.name, "my-skill");
    assert_eq!(skill.description, "A test skill");
    assert_eq!(skill.rel_path, "skills/my-skill");
    assert_eq!(standard_dirs()[1], "skills");
    assert_eq!(search_path("/r", standard_dirs()[1]), "/r/skills");
}

#[test]
fn discover_skips_missing_description() {
    assert!(parse_skill_md("---\nname: bad\n---\n", Some("bad"), "bad", "/r/bad", false).is_none());
    assert!(parse_skill_md("---\nname: bad\ndescription: \n---\n", None, "b", "/b", false).is_none());
}

#[test]
fn internal_skills_hidden_by_default() {
    let content = "---\nname: internal-thing\ndescription: Hidden\nmetadata:\n  internal: true\n---\n";
    assert!(parse_skill_md(content, Some("internal-thing"), "x", "/x", false).is_none());
    assert!(parse_skill_md(content, Some("internal-thing"), "x", "/x", true).is_some());
    let visible = "---\nname: t\ndescription: Shown\nmetadata:\n  internal: false\n---\n";
    assert!(parse_skill_md(visible, None, "x", "/x", false).is_some());
}

#[test]
fn skill_name_falls_back_to_directory_then_unnamed() {
    let content = "---\ndescription: No name\n---\n";
    assert_eq!(parse_skill_md(content, Some("dir-name"), "d", "/d", false).unwrap().name, "dir-name");
    assert_eq!(parse_skill_md(content, None, "d", "/d", false).unwrap().name, "unnamed");
}

#[test]
fn metadata_scalar_makes_frontmatter_unreadable() {
    assert!(parse_frontmatter("name: a\ndescription: b\nmetadata: x").is_none());
    let f = parse_frontmatter("name: a\n# comment: z\ndescription: \"b\"\r\nmetadata:\n  k: v\nother: 1").unwrap();
    assert_eq!(f.name.as_deref(), Some("a"));
    assert_eq!(f.description.as_deref(), Some("b"));
    assert!(!f.internal);
}

#[test]
fn split_lines_matches_str_lines() {
    for text in ["", "a", "a\n", "a\r\nb", "\n\n", "x\ny\r", "one\ntwo\n\nthree\r\n"] {
        let cs: Vec<char> = text.chars().collect();
        let got: Vec<String> = split_lines(&cs).iter().map(|l| l.iter().collect()).collect();
        let want: Vec<String> = text.lines().map(|l| l.to_string()).collect();
        assert_eq!(got, want, "text = {text:?}");
    }
}

#[test]
fn skipped_directories_and_depth() {
    assert!(skip_dir(".git"));
    assert!(skip_dir("node_modules"));
    assert!(skip_dir("target"));
    assert!(skip_dir("__pycache__"));
    assert!(!skip_dir("skills"));
    assert!(within_scan_depth(5));
    assert!(!within_scan_depth(6));
}

#[test]
fn mismatch_warning_text() {
    assert_eq!(
        name_mismatch_warning("a", Some("b")).as_deref(),
        Some("warning: skill name 'a' doesn't match directory 'b'")
    );
    assert!(name_mismatch_warning("a", Some("a")).is_none());
    assert!(name_mismatch_warning("a", Some("")).is_none());
    assert!(name_mismatch_warning("a", None).is_none());
}

#[test]
fn select_skills_all_returns_all() {
    let skills = vec![mock_skill("a"), mock_skill("b")];
    assert!(matches!(select_skills(&skills, true, None), SkillSelection::All));
}

#[test]
fn select_skills_specific_name() {
    let skills = vec![mock_skill("a"), mock_skill("b")];
    match select_skills(&skills, false, Some("b")) {
        SkillSelection::One(i) => assert_eq!(skills[i].name, "b"),
        _ => panic!("expected one"),
    }
}

#[test]
fn select_skills_missing_name_reports_helpful_error() {
    let skills = vec![mock_skill("a"), mock_skill("c")];
    match select_skills(&skills, false, Some("x")) {
        SkillSelection::Missing(msg) => {
            assert!(msg.contains("Available"));
            assert_eq!(msg, "Skill 'x' not found. Available: a, c");
        }
        _ => panic!("expected missing"),
    }
}

#[test]
fn select_skills_prompt_lines() {
    let skills = vec![mock_skill("a")];
    match select_skills(&skills, false, None) {
        SkillSelection::Prompt(lines) => assert_eq!(lines, vec!["a — description of a".to_string()]),
        _ => panic!("expected prompt"),
    }
}

#[test]
fn install_base_paths() {
    let global = install_base(true, "/home/u");
    assert!(global.ends_with(".opengoose/skills/installed"));
    assert_eq!(global, "/home/u/.opengoose/skills/installed");
    assert_eq!(install_base(false, "/home/u"), ".opengoose/skills/installed");
}

#[test]
fn lock_entry_records_source() {
    let src = parse_source("owner/repo").unwrap();
    let e = lock_entry_for(&found("s", "d"), &src, "2026-01-01T00:00:00Z");
    assert_eq!(e.source, "owner/repo");
    assert_eq!(e.source_type, "github");
    assert_eq!(e.source_url, "https://github.com/owner/repo.git");
    assert_eq!(e.skill_path.as_deref(), Some("skills/s"));
    assert_eq!(e.installed_at, "2026-01-01T00:00:00Z");
    assert!(e.plugin_name.is_none());
}
