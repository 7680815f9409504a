use opengoose::evolver::{
    applied, claimed_stamp, effectiveness_targets, next_step, plan_decision, retry_prompt, stage_after, succeeds,
    sweep_has_work, validate_create_content, CreateOutcome, EvolveAction, EvolveStage, EvolveStep,
    EvolverLoop, LoopStep, SweepDecision, SweepEffect,
};
use opengoose::skills_load::{LoadedSkill, SkillScope};

fn learned(name: &str) -> LoadedSkill {
    LoadedSkill {
        name: name.into(),
        description: "Use when testing".into(),
        path: format!("/skills/{name}"),
        content: String::new(),
        scope: SkillScope::Learned,
    }
}

const GOOD: &str = "---\nname: test\ndescription: Use when testing\n---\n# Test\n";

// The skill validator belongs to the skills crate and runs outside the
// library; these cases hand over its verdict on the same contents.

#[test]
fn validate_create_content_returns_valid_for_good_skill() {
    // The validator accepts "---\nname: test\ndescription: Use when testing\n---\n# Test\n".
    let result = validate_create_content(Ok(()));
    assert!(matches!(result, CreateOutcome::Valid));
}

#[test]
fn validate_create_content_returns_invalid_for_bad_content() {
    // The validator refuses "just some text without frontmatter".
    let result = validate_create_content(Err("missing YAML frontmatter".to_string()));
    assert!(matches!(result, CreateOutcome::Invalid(_)));
}

#[test]
fn invalid_outcome_carries_the_message() {
    match validate_create_content(Err("name must be kebab-case".to_string())) {
        CreateOutcome::Invalid(m) => assert_eq!(m, "name must be kebab-case"),
        CreateOutcome::Valid => panic!("expected invalid"),
    }
}

fn good() -> EvolveAction {
    EvolveAction::Create(GOOD.into(), CreateOutcome::Valid)
}

fn bad(msg: &str) -> EvolveAction {
    EvolveAction::Create("bad".into(), CreateOutcome::Invalid(msg.into()))
}

#[test]
fn first_reply_decisions() {
    let existing = vec![learned("alpha"), learned("beta"), learned("beta")];
    assert!(matches!(next_step(EvolveStage::Initial, EvolveAction::Skip, &existing), EvolveStep::Skipped));
    assert!(matches!(
        next_step(EvolveStage::Initial, EvolveAction::Update("beta".into()), &existing),
        EvolveStep::AskUpdate(1)
    ));
    match next_step(EvolveStage::Initial, EvolveAction::Update("gamma".into()), &existing) {
        EvolveStep::UnknownSkill(n) => assert_eq!(n, "gamma"),
        _ => panic!("expected unknown skill"),
    }
    match next_step(EvolveStage::Initial, good(), &existing) {
        EvolveStep::WriteSkill(c) => assert_eq!(c, GOOD),
        _ => panic!("expected write"),
    }
    match next_step(EvolveStage::Initial, bad("no frontmatter"), &existing) {
        EvolveStep::AskRetry(m) => assert_eq!(m, "no frontmatter"),
        _ => panic!("expected retry"),
    }
}

#[test]
fn update_and_retry_replies() {
    let existing = vec![learned("alpha")];
    match next_step(EvolveStage::Updating(0), good(), &existing) {
        EvolveStep::ReplaceSkill(0, c) => assert_eq!(c, GOOD),
        _ => panic!("expected replace"),
    }
    assert!(matches!(
        next_step(EvolveStage::Updating(0), bad("e"), &existing),
        EvolveStep::Fail(_)
    ));
    assert!(matches!(
        next_step(EvolveStage::Updating(0), EvolveAction::Skip, &existing),
        EvolveStep::UpdateIgnored
    ));
    assert!(matches!(
        next_step(EvolveStage::Retrying, good(), &existing),
        EvolveStep::WriteSkill(_)
    ));
    let give_up = next_step(EvolveStage::Retrying, EvolveAction::Update("alpha".into()), &existing);
    assert!(matches!(give_up, EvolveStep::GiveUp));
    assert!(!succeeds(&give_up));
    assert!(succeeds(&EvolveStep::Skipped));
    assert_eq!(stage_after(&EvolveStep::AskRetry("e".into())), Some(EvolveStage::Retrying));
    assert_eq!(stage_after(&EvolveStep::AskUpdate(3)), Some(EvolveStage::Updating(3)));
    assert_eq!(stage_after(&EvolveStep::Skipped), None);
}

#[test]
fn retry_prompt_appends_error() {
    assert_eq!(
        retry_prompt("P", "bad name"),
        "P\n\nPrevious output had format errors: bad name\nPlease fix the format and try again."
    );
}

#[test]
fn apply_decision_keep_returns_true() {
    let effect = plan_decision(SweepDecision::Keep("anything".into()), &[]);
    assert!(matches!(effect, SweepEffect::Keep));
    assert!(applied(&effect));
}

#[test]
fn apply_decision_restore_nonexistent_returns_false() {
    let effect = plan_decision(SweepDecision::Restore("missing".into()), &[]);
    assert!(!applied(&effect));
}

#[test]
fn apply_decision_delete_nonexistent_returns_false() {
    let effect = plan_decision(SweepDecision::Delete("missing".into()), &[]);
    assert!(!applied(&effect));
}

#[test]
fn apply_decision_refine_nonexistent_returns_false() {
    let effect = plan_decision(SweepDecision::Refine("missing".into(), GOOD.into(), true), &[]);
    assert!(!applied(&effect));
}

#[test]
fn sweep_decisions_on_existing_skills() {
    let dormant = vec![learned("old"), learned("older")];
    assert!(matches!(plan_decision(SweepDecision::Restore("older".into()), &dormant), SweepEffect::Restore(1)));
    assert!(matches!(plan_decision(SweepDecision::Delete("old".into()), &dormant), SweepEffect::Delete(0)));
    assert!(matches!(
        plan_decision(SweepDecision::Refine("old".into(), GOOD.into(), true), &dormant),
        SweepEffect::Refine(0, _)
    ));
    assert!(matches!(
        plan_decision(SweepDecision::Refine("old".into(), "not a skill".into(), false), &dormant),
        SweepEffect::NotApplied
    ));
    assert!(sweep_has_work(2, 1));
    assert!(!sweep_has_work(0, 3));
    assert!(!sweep_has_work(3, 0));
}

#[test]
fn evolver_loop_rounds() {
    let mut lp = EvolverLoop::new();
    assert_eq!(lp.after_query(0, 10_000), LoopStep::Wait);
    assert_eq!(lp.after_query(2, 10_000), LoopStep::InitAgent);
    assert_eq!(lp.after_agent_init(false), LoopStep::Wait);
    assert_eq!(lp.after_query(2, 10_001), LoopStep::InitAgent);
    assert_eq!(lp.after_agent_init(true), LoopStep::ProcessStamps);
    assert_eq!(lp.after_query(1, 10_002), LoopStep::ProcessStamps);
    assert_eq!(lp.after_query(0, 10_003), LoopStep::Sweep);
    assert_eq!(lp.last_sweep_epoch, 10_003);
    assert_eq!(lp.after_query(0, 10_003 + 3599), LoopStep::Wait);
    assert_eq!(lp.after_query(0, 10_003 + 3600), LoopStep::Sweep);
    assert!(claimed_stamp(Some(true)));
    assert!(!claimed_stamp(Some(false)));
    assert!(!claimed_stamp(None));
}

fn installed(name: &str) -> LoadedSkill {
    LoadedSkill { scope: SkillScope::Installed, ..learned(name) }
}

#[test]
fn update_effectiveness_handles_empty_skills_list() {
    assert!(effectiveness_targets(&[], &[], "Quality").is_empty());
}

#[test]
fn update_effectiveness_skips_installed_skills() {
    let skills = vec![installed("test-skill")];
    let dims = vec![Some("Quality".to_string())];
    assert!(effectiveness_targets(&skills, &dims, "Quality").is_empty());
}

#[test]
fn update_effectiveness_skips_different_dimension() {
    let skills = vec![learned("test-skill")];
    let dims = vec![Some("Reliability".to_string())];
    assert!(effectiveness_targets(&skills, &dims, "Quality").is_empty());
}

#[test]
fn update_effectiveness_updates_matching_learned_skill() {
    let skills = vec![learned("test-skill")];
    let dims = vec![Some("Quality".to_string())];
    assert_eq!(effectiveness_targets(&skills, &dims, "Quality"), vec![0]);
}

#[test]
fn update_effectiveness_handles_missing_metadata() {
    let skills = vec![learned("test-skill")];
    let dims: Vec<Option<String>> = vec![None];
    assert!(effectiveness_targets(&skills, &dims, "Quality").is_empty());
}

#[test]
fn stamp_targets_keep_listing_order() {
    let skills = vec![learned("a"), installed("b"), learned("c"), learned("d"), learned("e")];
    let dims = vec![
        Some("Quality".to_string()),
        Some("Quality".to_string()),
        Some("Helpfulness".to_string()),
        None,
        Some("Quality".to_string()),
    ];
    assert_eq!(effectiveness_targets(&skills, &dims, "Quality"), vec![0, 4]);
}

#[test]
fn a_second_format_error_fails_the_stamp() {
    let existing = vec![learned("alpha")];
    let first = next_step(EvolveStage::Initial, bad("no name"), &existing);
    let stage = stage_after(&first).expect("asks again");
    assert_eq!(stage, EvolveStage::Retrying);
    match next_step(stage, bad("still no name"), &existing) {
        EvolveStep::Fail(m) => assert_eq!(m, "still no name"),
        _ => panic!("expected the stamp to fail"),
    }
}
