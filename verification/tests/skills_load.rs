use opengoose::skills_load::{
    build_catalog_capped, determine_lifecycle, extract_body, is_dormant_or_archived,
    keep_first_by_name, lifecycle_at_time, lifecycle_from_days, scan_order, Lifecycle, LoadedSkill,
    SkillScope, SkillStanding,
};

fn skill(name: &str, description: &str, scope: SkillScope) -> LoadedSkill {
    LoadedSkill {
        name: name.into(),
        description: description.into(),
        path: format!("/tmp/{name}"),
        content: String::new(),
        scope,
    }
}

fn rfc3339_days_ago(days: i64) -> String {
    (chrono::Utc::now() - chrono::Duration::days(days)).to_rfc3339()
}

#[test]
fn catalog_cap_limits_output() {
    let skills: Vec<LoadedSkill> = (0..15)
        .map(|i| skill(&format!("skill-{i}"), &format!("Description {i}"), SkillScope::Learned))
        .collect();
    let standing = vec![None; skills.len()];
    let catalog = build_catalog_capped(&skills, &standing, 10);
    assert_eq!(catalog.text.matches("- **").count(), 10);
    assert_eq!(catalog.included_learned, (0..10).collect::<Vec<usize>>());
}

#[test]
fn catalog_installed_before_learned() {
    let skills = vec![
        skill("learned-1", "L", SkillScope::Learned),
        skill("installed-1", "I", SkillScope::Installed),
    ];
    let catalog = build_catalog_capped(&skills, &[None, None], 10);
    let installed_pos = catalog.text.find("installed-1").unwrap();
    let learned_pos = catalog.text.find("learned-1").unwrap();
    assert!(installed_pos < learned_pos);
}

#[test]
fn empty_skills_returns_empty_catalog() {
    assert_eq!(build_catalog_capped(&[], &[], 10).text, String::new());
}

#[test]
fn catalog_capped_includes_installed_always() {
    let skills = vec![skill("always-here", "I", SkillScope::Installed)];
    let catalog = build_catalog_capped(&skills, &[None], 10);
    assert!(catalog.text.contains("always-here"));
    assert!(catalog.included_learned.is_empty());
}

#[test]
fn catalog_capped_skips_dormant_learned() {
    let skills = vec![skill("dormant-skill", "Use when dormant", SkillScope::Learned)];
    let standing = vec![Some(SkillStanding { lifecycle: Lifecycle::Dormant, effective: None })];
    assert!(build_catalog_capped(&skills, &standing, 10).text.is_empty());
}

#[test]
fn catalog_excludes_ineffective_learned() {
    let skills = vec![skill("bad-skill", "Use when bad", SkillScope::Learned)];
    let standing =
        vec![Some(SkillStanding { lifecycle: Lifecycle::Active, effective: Some(false) })];
    assert!(build_catalog_capped(&skills, &standing, 10).text.is_empty());
}

#[test]
fn catalog_orders_effective_before_unknown_and_formats_lines() {
    let skills = vec![
        skill("unknown", "U", SkillScope::Learned),
        skill("good", "G", SkillScope::Learned),
        skill("inst", "I", SkillScope::Installed),
    ];
    let standing = vec![
        None,
        Some(SkillStanding { lifecycle: Lifecycle::Active, effective: Some(true) }),
        None,
    ];
    let catalog = build_catalog_capped(&skills, &standing, 2);
    assert_eq!(catalog.text, "# Available Skills\n\n- **inst**: I\n- **good**: G\n");
    assert_eq!(catalog.included_learned, vec![1]);
}

#[test]
fn lifecycle_active_when_recent() {
    let now = chrono::Utc::now().to_rfc3339();
    assert_eq!(determine_lifecycle(&now, Some(&now)), Lifecycle::Active);
}

#[test]
fn lifecycle_dormant_after_30_days() {
    let old = rfc3339_days_ago(35);
    assert_eq!(determine_lifecycle(&old, Some(&old)), Lifecycle::Dormant);
}

#[test]
fn lifecycle_archived_after_120_days() {
    let old = rfc3339_days_ago(150);
    assert_eq!(determine_lifecycle(&old, Some(&old)), Lifecycle::Archived);
}

#[test]
fn lifecycle_uses_generated_at_when_no_last_included() {
    let now = chrono::Utc::now().to_rfc3339();
    assert_eq!(determine_lifecycle(&now, None), Lifecycle::Active);
}

#[test]
fn lifecycle_boundary_30_days_is_active() {
    let edge = rfc3339_days_ago(30);
    assert_eq!(determine_lifecycle(&edge, Some(&edge)), Lifecycle::Active);
}

#[test]
fn lifecycle_boundary_120_days_is_dormant() {
    let edge = rfc3339_days_ago(120);
    assert_eq!(determine_lifecycle(&edge, Some(&edge)), Lifecycle::Dormant);
}

#[test]
fn lifecycle_boundary_121_days_is_archived() {
    let edge = rfc3339_days_ago(121);
    assert_eq!(determine_lifecycle(&edge, Some(&edge)), Lifecycle::Archived);
}

#[test]
fn lifecycle_falls_back_when_dates_do_not_parse() {
    let old = rfc3339_days_ago(60);
    assert_eq!(determine_lifecycle(&old, Some("not a date")), Lifecycle::Dormant);
    assert_eq!(determine_lifecycle("garbage", Some("also garbage")), Lifecycle::Active);
    assert_eq!(determine_lifecycle("garbage", None), Lifecycle::Active);
}

#[test]
fn lifecycle_day_thresholds() {
    assert_eq!(lifecycle_from_days(-5), Lifecycle::Active);
    assert_eq!(lifecycle_from_days(30), Lifecycle::Active);
    assert_eq!(lifecycle_from_days(31), Lifecycle::Dormant);
    assert_eq!(lifecycle_from_days(120), Lifecycle::Dormant);
    assert_eq!(lifecycle_from_days(121), Lifecycle::Archived);
}

// 2025-01-01T00:00:00Z is 1_735_689_600 seconds after the Unix epoch.
const JAN1: i64 = 1_735_689_600;
const DAY: i64 = 86_400;

#[test]
fn lifecycle_at_time_counts_whole_days() {
    let g = "2025-01-01T00:00:00Z";
    assert_eq!(lifecycle_at_time(g, None, (JAN1 + 30 * DAY, 0)), Lifecycle::Active);
    assert_eq!(lifecycle_at_time(g, None, (JAN1 + 31 * DAY - 1, 999_999_999)), Lifecycle::Active);
    assert_eq!(lifecycle_at_time(g, None, (JAN1 + 31 * DAY, 0)), Lifecycle::Dormant);
    assert_eq!(lifecycle_at_time(g, None, (JAN1 + 120 * DAY, 0)), Lifecycle::Dormant);
    assert_eq!(lifecycle_at_time(g, None, (JAN1 + 121 * DAY, 0)), Lifecycle::Archived);
    // A date in the future counts as no age.
    assert_eq!(lifecycle_at_time(g, None, (JAN1 - 500 * DAY, 0)), Lifecycle::Active);
    // An offset other than Z names the same instant.
    assert_eq!(lifecycle_at_time("2025-01-01T09:00:00+09:00", None, (JAN1 + 31 * DAY, 0)), Lifecycle::Dormant);
}

#[test]
fn lifecycle_at_time_last_inclusion_wins() {
    let generated = "2024-01-01T00:00:00Z";
    let included = "2025-01-01T00:00:00Z";
    let now = (JAN1 + 10 * DAY, 0);
    assert_eq!(lifecycle_at_time(generated, Some(included), now), Lifecycle::Active);
    assert_eq!(lifecycle_at_time(generated, None, now), Lifecycle::Archived);
    // An unreadable last inclusion falls back to the generation date.
    assert_eq!(lifecycle_at_time(generated, Some("yesterday"), now), Lifecycle::Archived);
    // No readable date: active.
    assert_eq!(lifecycle_at_time("garbage", Some("also garbage"), now), Lifecycle::Active);
}

#[test]
fn extract_body_cases() {
    assert_eq!(extract_body("---\nname: a\n---\n# Body\n"), Some("\n# Body\n"));
    assert_eq!(extract_body("  \n# No frontmatter"), Some("# No frontmatter"));
    assert_eq!(extract_body("---\nname: a\nnever closed"), None);
    assert_eq!(extract_body("---\n---"), Some(""));
}

#[test]
fn keep_first_by_name_prefers_earlier_scopes() {
    let found = vec![
        skill("a", "rig", SkillScope::Learned),
        skill("b", "project", SkillScope::Installed),
        skill("a", "global", SkillScope::Installed),
        skill("c", "global", SkillScope::Learned),
        skill("b", "global", SkillScope::Learned),
    ];
    let kept = keep_first_by_name(found);
    let got: Vec<(String, String)> =
        kept.iter().map(|s| (s.name.clone(), s.description.clone())).collect();
    assert_eq!(
        got,
        vec![
            ("a".to_string(), "rig".to_string()),
            ("b".to_string(), "project".to_string()),
            ("c".to_string(), "global".to_string())
        ]
    );
}

#[test]
fn scan_order_is_rig_then_project_then_global() {
    let plan = scan_order("/g", Some("/p"), Some("r1"), "/rigs");
    let dirs: Vec<&str> = plan.iter().map(|(d, _)| d.as_str()).collect();
    assert_eq!(
        dirs,
        vec!["/rigs/r1/skills/learned", "/p/installed", "/p/learned", "/g/installed", "/g/learned"]
    );
    assert_eq!(plan[0].1, SkillScope::Learned);
    assert_eq!(plan[1].1, SkillScope::Installed);
    let plan = scan_order("/g", None, None, "/rigs");
    assert_eq!(plan.len(), 2);
}

#[test]
fn dormant_or_archived_selection() {
    assert!(!is_dormant_or_archived(&None));
    assert!(!is_dormant_or_archived(&Some(SkillStanding {
        lifecycle: Lifecycle::Active,
        effective: None
    })));
    assert!(is_dormant_or_archived(&Some(SkillStanding {
        lifecycle: Lifecycle::Archived,
        effective: Some(true)
    })));
}
