//! The evolver's decisions: what to do with each reply of the agent while
//! turning a low stamp into a skill, which skills a stamp rates, what each
//! decision of an idle-time sweep does, and when the evolver loop sweeps,
//! starts its agent or processes stamps. Talking to the agent, the board
//! and the disk, and checking the format of generated skills (the skills
//! crate's validator), happen outside the library; these functions take
//! what came back and say what comes next.

use vstd::prelude::*;

use crate::frontmatter::opt_view;
use crate::skills_load::{LoadedSkill, SkillScope};
use crate::text::{push_str, str_is, string_of};

verus! {

// ---------------------------------------------------------------------------
// The skill validator's verdict
// ---------------------------------------------------------------------------

/// Whether content from a Create reply can be written. The content itself is
/// checked by the skill validator of the skills crate, outside the library;
/// this is its verdict.
pub enum CreateOutcome {
    /// Well formed, ready to write.
    Valid,
    /// Refused; holds the message to send back to the agent.
    Invalid(String),
}

/// Reads the skill validator's result on the content of a Create reply:
/// accepted content is ready to write, and a refusal keeps the validator's
/// message for the agent.
pub fn validate_create_content(checked: Result<(), String>) -> (res: CreateOutcome)
    ensures
        match checked {
            Ok(()) => res is Valid,
            Err(m) => res matches CreateOutcome::Invalid(r) && r@ == m@,
        },
{
    match checked {
        Ok(()) => CreateOutcome::Valid,
        Err(m) => CreateOutcome::Invalid(m),
    }
}

// ---------------------------------------------------------------------------
// Turning a low stamp into a skill
// ---------------------------------------------------------------------------

/// What a reply of the agent asks for.
pub enum EvolveAction {
    /// The lesson is too generic to keep.
    Skip,
    /// An existing skill covers the lesson: update the skill of this name.
    Update(String),
    /// New SKILL.md content, with the skill validator's verdict on it.
    Create(String, CreateOutcome),
}

/// Where the exchange with the agent stands.
#[derive(Debug, Clone, Copy, PartialEq, Eq, Structural)]
pub enum EvolveStage {
    /// Waiting for the reply to the first prompt.
    Initial,
    /// Waiting for the rewrite of the loaded skill at this position.
    Updating(usize),
    /// Waiting for the reply to the format-fix prompt.
    Retrying,
}

/// What to do after a reply.
pub enum EvolveStep {
    /// The agent skipped the lesson; the stamp is done.
    Skipped,
    /// No loaded skill has the name the agent asked to update; done.
    UnknownSkill(String),
    /// Ask the agent to rewrite the loaded skill at this position.
    AskUpdate(usize),
    /// The rewrite was not a skill; the skill stays as it is; done.
    UpdateIgnored,
    /// Replace the loaded skill at this position with this content; done.
    ReplaceSkill(usize, String),
    /// Write this content as a new learned skill of the target rig; done.
    WriteSkill(String),
    /// Ask again, telling the agent about this format error.
    AskRetry(String),
    /// Fail the stamp with this format error.
    Fail(String),
    /// The retry gave no skill: mark the evolver's work item stuck and fail.
    GiveUp,
}

/// The position of the first skill named `name`.
pub open spec fn first_named(skills: Seq<LoadedSkill>, name: Seq<char>) -> Option<int> {
    if exists|i: int| 0 <= i < skills.len() && #[trigger] skills[i].name@ == name {
        Some(
            choose|i: int|
                0 <= i < skills.len() && #[trigger] skills[i].name@ == name && forall|j: int|
                    0 <= j < i ==> skills[j].name@ != name,
        )
    } else {
        None
    }
}

/// The first skill named `name`, if any.
pub fn position_by_name(skills: &[LoadedSkill], name: &str) -> (res: Option<usize>)
    ensures
        match res {
            Some(i) => i < skills@.len() && first_named(skills@, name@) == Some(i as int),
            None => first_named(skills@, name@) is None,
        },
{
    let mut i: usize = 0;
    while i < skills.len()
        invariant
            i <= skills@.len(),
            forall|j: int| 0 <= j < i ==> #[trigger] skills@[j].name@ != name@,
        decreases skills@.len() - i,
    {
        if str_is(skills[i].name.as_str(), name) {
            proof {
                let w = choose|w: int|
                    0 <= w < skills@.len() && #[trigger] skills@[w].name@ == name@ && forall|j: int|
                        0 <= j < w ==> skills@[j].name@ != name@;
                assert(0 <= i < skills@.len() && skills@[i as int].name@ == name@);
                if w < i {
                    assert(skills@[w].name@ != name@);
                } else if w > i {
                    assert(skills@[i as int].name@ != name@);
                }
            }
            return Some(i);
        }
        i = i + 1;
    }
    None
}

/// Whether a step ends the exchange successfully: the evolver's work item
/// is then submitted; after `Fail` and `GiveUp` it is abandoned.
pub open spec fn step_succeeds(s: EvolveStep) -> bool {
    !(s is Fail || s is GiveUp)
}

/// Decides what to do with the agent's reply `action` at stage `stage`,
/// where `existing` are the skills loaded for the stamp's rig.
pub fn next_step(stage: EvolveStage, action: EvolveAction, existing: &[LoadedSkill]) -> (res:
    EvolveStep)
    requires
        stage matches EvolveStage::Updating(i) ==> i < existing@.len(),
    ensures
        match stage {
            EvolveStage::Initial => match action {
                EvolveAction::Skip => res is Skipped,
                EvolveAction::Update(name) => match first_named(existing@, name@) {
                    Some(i) => res matches EvolveStep::AskUpdate(j) && j == i,
                    None => res matches EvolveStep::UnknownSkill(n) && n@ == name@,
                },
                EvolveAction::Create(c, v) => match v {
                    CreateOutcome::Valid => res matches EvolveStep::WriteSkill(w) && w@ == c@,
                    CreateOutcome::Invalid(e) => res matches EvolveStep::AskRetry(m) && m@ == e@,
                },
            },
            EvolveStage::Updating(i) => match action {
                EvolveAction::Create(c, v) => match v {
                    CreateOutcome::Valid => res matches EvolveStep::ReplaceSkill(j, w) && j == i
                        && w@ == c@,
                    CreateOutcome::Invalid(e) => res matches EvolveStep::Fail(m) && m@ == e@,
                },
                _ => res is UpdateIgnored,
            },
            EvolveStage::Retrying => match action {
                EvolveAction::Create(c, v) => match v {
                    CreateOutcome::Valid => res matches EvolveStep::WriteSkill(w) && w@ == c@,
                    CreateOutcome::Invalid(e) => res matches EvolveStep::Fail(m) && m@ == e@,
                },
                _ => res is GiveUp,
            },
        },
        // Only content the validator accepted is ever written.
        res matches EvolveStep::WriteSkill(w) ==> action matches EvolveAction::Create(c, v) && v is Valid
            && w@ == c@,
        res matches EvolveStep::ReplaceSkill(_, w) ==> action matches EvolveAction::Create(c, v) && v is Valid
            && w@ == c@,
        // The agent is asked to fix the format at most once.
        stage is Retrying ==> !(res is AskRetry) && !(res is AskUpdate),
        res matches EvolveStep::AskUpdate(j) ==> j < existing@.len(),
{
    match stage {
        EvolveStage::Initial => match action {
            EvolveAction::Skip => EvolveStep::Skipped,
            EvolveAction::Update(name) => match position_by_name(existing, name.as_str()) {
                Some(i) => {
                    proof {
                        let w = choose|w: int|
                            0 <= w < existing@.len() && #[trigger] existing@[w].name@ == name@
                                && forall|j: int| 0 <= j < w ==> existing@[j].name@ != name@;
                        assert(w == i);
                    }
                    EvolveStep::AskUpdate(i)
                },
                None => EvolveStep::UnknownSkill(name),
            },
            EvolveAction::Create(c, v) => match v {
                CreateOutcome::Valid => EvolveStep::WriteSkill(c),
                CreateOutcome::Invalid(m) => EvolveStep::AskRetry(m),
            },
        },
        EvolveStage::Updating(i) => match action {
            EvolveAction::Create(c, v) => match v {
                CreateOutcome::Valid => EvolveStep::ReplaceSkill(i, c),
                CreateOutcome::Invalid(m) => EvolveStep::Fail(m),
            },
            _ => EvolveStep::UpdateIgnored,
        },
        EvolveStage::Retrying => match action {
            EvolveAction::Create(c, v) => match v {
                CreateOutcome::Valid => EvolveStep::WriteSkill(c),
                CreateOutcome::Invalid(m) => EvolveStep::Fail(m),
            },
            _ => EvolveStep::GiveUp,
        },
    }
}

/// The stage a step leads to, when the agent is asked again.
pub fn stage_after(step: &EvolveStep) -> (res: Option<EvolveStage>)
    ensures
        match *step {
            EvolveStep::AskUpdate(i) => res == Some(EvolveStage::Updating(i)),
            EvolveStep::AskRetry(_) => res == Some(EvolveStage::Retrying),
            _ => res is None,
        },
{
    match step {
        EvolveStep::AskUpdate(i) => Some(EvolveStage::Updating(*i)),
        EvolveStep::AskRetry(_) => Some(EvolveStage::Retrying),
        _ => None,
    }
}

/// Whether the exchange ended well (`true`: submit the evolver's work
/// item; `false`: abandon it).
pub fn succeeds(step: &EvolveStep) -> (res: bool)
    ensures
        res == step_succeeds(*step),
        // A written or replaced skill always leads to submitting the work
        // item; only `Fail` and `GiveUp` abandon it.
        (*step is WriteSkill || *step is ReplaceSkill) ==> res,
        (*step is Fail || *step is GiveUp) <==> !res,
{
    proof {
        law_written_skill_is_submitted(*step);
    }
    match step {
        EvolveStep::Fail(_) => false,
        EvolveStep::GiveUp => false,
        _ => true,
    }
}

/// The exchange fails exactly when it ends in `Fail` or `GiveUp`: every
/// step that writes a skill (a new one, or a rewrite of an existing one)
/// counts as a success, so the evolver's work item is submitted, and so do
/// the steps that end without writing anything (a skip, an unknown name,
/// an ignored update).
pub proof fn law_written_skill_is_submitted(step: EvolveStep)
    ensures
        step is WriteSkill ==> step_succeeds(step),
        step is ReplaceSkill ==> step_succeeds(step),
        step is Skipped || step is UnknownSkill || step is UpdateIgnored ==> step_succeeds(step),
        step is Fail || step is GiveUp ==> !step_succeeds(step),
{
}

/// The format-fix prompt: the first prompt followed by the error.
pub open spec fn retry_prompt_text(prompt: Seq<char>, error: Seq<char>) -> Seq<char> {
    prompt + "\n\nPrevious output had format errors: "@ + error
        + "\nPlease fix the format and try again."@
}

/// The prompt that asks the agent to fix the format of its reply.
pub fn retry_prompt(prompt: &str, error: &str) -> (res: String)
    ensures
        res@ == retry_prompt_text(prompt@, error@),
{
    let mut out: Vec<char> = Vec::new();
    push_str(&mut out, prompt);
    push_str(&mut out, "\n\nPrevious output had format errors: ");
    push_str(&mut out, error);
    push_str(&mut out, "\nPlease fix the format and try again.");
    assert(out@ =~= retry_prompt_text(prompt@, error@));
    string_of(&out)
}

/// Whether a stamp on `dimension` counts toward the effectiveness record of
/// a skill: the skill is learned and was generated from a stamp on the same
/// dimension (`generated_for`, read from its metadata; `None` when the
/// metadata could not be read).
pub open spec fn tracks_stamp(scope: SkillScope, generated_for: Option<Seq<char>>, dimension: Seq<char>) -> bool {
    scope == SkillScope::Learned && generated_for == Some(dimension)
}

/// The positions, in order, among the first `n` skills of those whose
/// effectiveness a stamp on `dimension` updates.
pub open spec fn stamp_targets(
    skills: Seq<LoadedSkill>,
    generated_for: Seq<Option<String>>,
    dimension: Seq<char>,
    n: int,
) -> Seq<int>
    decreases n,
{
    if n <= 0 {
        Seq::empty()
    } else if tracks_stamp(skills[n - 1].scope, opt_view(generated_for[n - 1]), dimension) {
        stamp_targets(skills, generated_for, dimension, n - 1).push(n - 1)
    } else {
        stamp_targets(skills, generated_for, dimension, n - 1)
    }
}

/// The skills whose effectiveness record a stamp on `dimension` updates,
/// given the dimension each was generated for.
pub fn effectiveness_targets(
    skills: &[LoadedSkill],
    generated_for: &[Option<String>],
    dimension: &str,
) -> (res: Vec<usize>)
    requires
        skills.len() == generated_for.len(),
    ensures
        res@.map_values(|i: usize| i as int) == stamp_targets(
            skills@,
            generated_for@,
            dimension@,
            skills@.len() as int,
        ),
{
    let mut res: Vec<usize> = Vec::new();
    let mut k: usize = 0;
    while k < skills.len()
        invariant
            k <= skills.len(),
            skills.len() == generated_for.len(),
            res@.map_values(|i: usize| i as int) == stamp_targets(
                skills@,
                generated_for@,
                dimension@,
                k as int,
            ),
        decreases skills.len() - k,
    {
        let hit = match &generated_for[k] {
            Some(d) => skills[k].scope == SkillScope::Learned && str_is(d.as_str(), dimension),
            None => false,
        };
        proof {
            assert(hit == tracks_stamp(skills@[k as int].scope, opt_view(generated_for@[k as int]), dimension@));
        }
        if hit {
            res.push(k);
            proof {
                assert(res@.map_values(|i: usize| i as int) =~= stamp_targets(
                    skills@,
                    generated_for@,
                    dimension@,
                    k as int,
                ).push(k as int));
            }
        }
        k = k + 1;
    }
    res
}

// ---------------------------------------------------------------------------
// The idle-time sweep
// ---------------------------------------------------------------------------

/// What the agent decided for a dormant skill.
pub enum SweepDecision {
    /// Make the skill active again.
    Restore(String),
    /// Replace the skill's content and make it active again; the flag is
    /// whether the skill validator accepted the new content.
    Refine(String, String, bool),
    /// Delete the skill.
    Delete(String),
    /// Leave the skill dormant.
    Keep(String),
}

/// What a sweep decision does to the dormant skills.
pub enum SweepEffect {
    /// Record an inclusion for the skill at this position (making it active).
    Restore(usize),
    /// Write this content to the skill at this position and record an inclusion.
    Refine(usize, String),
    /// Delete the directory of the skill at this position.
    Delete(usize),
    /// Nothing to change.
    Keep,
    /// The decision names no dormant skill (or the validator refused a
    /// refinement):
    /// nothing is done and the decision counts as not applied.
    NotApplied,
}

/// What a sweep decision does, given the dormant skills.
pub fn plan_decision(decision: SweepDecision, dormant: &[LoadedSkill]) -> (res: SweepEffect)
    ensures
        match decision {
            SweepDecision::Restore(n) => match first_named(dormant@, n@) {
                Some(i) => res matches SweepEffect::Restore(j) && j == i,
                None => res is NotApplied,
            },
            SweepDecision::Refine(n, c, valid) => match first_named(dormant@, n@) {
                Some(i) => if valid {
                    res matches SweepEffect::Refine(j, w) && j == i && w@ == c@
                } else {
                    res is NotApplied
                },
                None => res is NotApplied,
            },
            SweepDecision::Delete(n) => match first_named(dormant@, n@) {
                Some(i) => res matches SweepEffect::Delete(j) && j == i,
                None => res is NotApplied,
            },
            SweepDecision::Keep(_) => res is Keep,
        },
{
    match decision {
        SweepDecision::Restore(n) => match position_by_name(dormant, n.as_str()) {
            Some(i) => SweepEffect::Restore(i),
            None => SweepEffect::NotApplied,
        },
        SweepDecision::Refine(n, c, valid) => match position_by_name(dormant, n.as_str()) {
            Some(i) => if valid {
                SweepEffect::Refine(i, c)
            } else {
                SweepEffect::NotApplied
            },
            None => SweepEffect::NotApplied,
        },
        SweepDecision::Delete(n) => match position_by_name(dormant, n.as_str()) {
            Some(i) => SweepEffect::Delete(i),
            None => SweepEffect::NotApplied,
        },
        SweepDecision::Keep(_) => SweepEffect::Keep,
    }
}

/// Whether a decision counts as applied.
pub fn applied(effect: &SweepEffect) -> (res: bool)
    ensures
        res == !(*effect is NotApplied),
{
    match effect {
        SweepEffect::NotApplied => false,
        _ => true,
    }
}

/// Whether a sweep has anything to weigh: dormant skills, and recent
/// failures to weigh them against.
pub fn sweep_has_work(dormant: usize, recent_failures: usize) -> (res: bool)
    ensures
        res == (dormant > 0 && recent_failures > 0),
{
    dormant > 0 && recent_failures > 0
}

// ---------------------------------------------------------------------------
// The evolver loop
// ---------------------------------------------------------------------------

/// The least time between two idle-time sweeps, in seconds.
pub const SWEEP_INTERVAL_SECS: u64 = 3600;

/// What the evolver loop remembers between rounds.
pub struct EvolverLoop {
    /// The agent has been created.
    pub agent_ready: bool,
    /// When the last sweep started, in seconds since the Unix epoch.
    pub last_sweep_epoch: u64,
}

/// What the loop does next in a round.
#[derive(Debug, Clone, Copy, PartialEq, Eq, Structural)]
pub enum LoopStep {
    /// Nothing to do until the next wake-up.
    Wait,
    /// Run an idle-time sweep.
    Sweep,
    /// Create the agent, then report with `after_agent_init`.
    InitAgent,
    /// Process the stamps found.
    ProcessStamps,
}

impl EvolverLoop {
    /// A loop that has not created its agent nor swept yet.
    pub fn new() -> (res: EvolverLoop)
        ensures
            !res.agent_ready,
            res.last_sweep_epoch == 0,
    {
        EvolverLoop { agent_ready: false, last_sweep_epoch: 0 }
    }

    /// Decides a round after the query for unprocessed low stamps found
    /// `stamps` of them, at `now` (seconds since the Unix epoch): with no
    /// stamps, sweep when the agent exists and the last sweep is an hour
    /// old; with stamps, create the agent first if needed.
    pub fn after_query(&mut self, stamps: usize, now: u64) -> (res: LoopStep)
        requires
            old(self).last_sweep_epoch <= now,
        ensures
            stamps == 0 ==> (if old(self).agent_ready && now - old(self).last_sweep_epoch
                >= SWEEP_INTERVAL_SECS {
                res == LoopStep::Sweep && final(self).last_sweep_epoch == now
            } else {
                res == LoopStep::Wait && final(self).last_sweep_epoch == old(
                    self,
                ).last_sweep_epoch
            }),
            stamps > 0 ==> res == (if old(self).agent_ready {
                LoopStep::ProcessStamps
            } else {
                LoopStep::InitAgent
            }) && final(self).last_sweep_epoch == old(self).last_sweep_epoch,
            final(self).agent_ready == old(self).agent_ready,
            // Sweeps start at least an hour apart.
            res == LoopStep::Sweep ==> old(self).last_sweep_epoch + SWEEP_INTERVAL_SECS <= now,
    {
        if stamps == 0 {
            if self.agent_ready && now - self.last_sweep_epoch >= SWEEP_INTERVAL_SECS {
                self.last_sweep_epoch = now;
                LoopStep::Sweep
            } else {
                LoopStep::Wait
            }
        } else if self.agent_ready {
            LoopStep::ProcessStamps
        } else {
            LoopStep::InitAgent
        }
    }

    /// Continues a round after trying to create the agent: process the
    /// stamps when it was created, else wait for the next round.
    pub fn after_agent_init(&mut self, created: bool) -> (res: LoopStep)
        ensures
            final(self).agent_ready == (old(self).agent_ready || created),
            final(self).last_sweep_epoch == old(self).last_sweep_epoch,
            res == (if created {
                LoopStep::ProcessStamps
            } else {
                LoopStep::Wait
            }),
    {
        if created {
            self.agent_ready = true;
            LoopStep::ProcessStamps
        } else {
            LoopStep::Wait
        }
    }
}

/// Whether to process a stamp after trying to mark it evolved: only when
/// this loop marked it (`Some(true)`); `Some(false)` means another evolver
/// took it, `None` that marking failed.
pub fn claimed_stamp(marked: Option<bool>) -> (res: bool)
    ensures
        res == (marked == Some(true)),
{
    match marked {
        Some(true) => true,
        _ => false,
    }
}

} // verus!
