//! The rules of the web API: what a request to create a work item must
//! satisfy, how board and worker failures become HTTP statuses, how the
//! skill lists of all rigs are merged, and which scope a skill's directory
//! belongs to. The HTTP server, the board and the disk are outside.

use vstd::prelude::*;

use crate::paths::{component_under, first_component_under, join, join_spec, path_starts_with, starts_with_path};
use crate::skills_load::{
    first_occurrence_indices, first_occurrences, keep_first_by_name, skill_names, Lifecycle,
    LoadedSkill, SkillScope,
};
use crate::text::{byte_len, byte_len_exceeds, chars_of, push_str, str_is, string_of};
use crate::tui_app::Priority;

verus! {

// ---------------------------------------------------------------------------
// Request bodies
// ---------------------------------------------------------------------------

/// The creator recorded when a create request names none.
pub fn default_rig() -> (res: String)
    ensures
        res@ == "web"@,
{
    "web".to_string()
}

/// A request to post a work item.
pub struct CreateItem {
    pub title: String,
    pub description: String,
    pub created_by: String,
    /// `P0`, `P1` or `P2`; anything else means `P1`.
    pub priority: String,
    pub tags: Vec<String>,
}

/// A request to claim a work item for a rig.
pub struct ClaimBody {
    pub rig_id: String,
}

/// A request to promote a skill to another scope.
pub struct PromoteBody {
    pub to: String,
}

/// A request to promote a memory to another scope.
pub struct PromoteRequest {
    pub scope: String,
}

/// A request to start a worker.
pub struct CreateWorkerRequest {
    pub id: Option<String>,
    pub recipe: Option<String>,
    pub model: Option<String>,
}

/// The answer about a started or stopped worker.
pub struct WorkerResponse {
    pub id: String,
    pub status: &'static str,
}

/// A skill with its content, for the detail view.
pub struct SkillDetail {
    pub name: String,
    pub description: String,
    pub content: String,
    pub scope: String,
    pub scope_level: String,
    /// The skill's metadata file as JSON, when it has one.
    pub metadata: Option<String>,
}

/// How a request failed.
#[derive(Debug, Clone, Copy, PartialEq, Eq, Structural)]
pub enum ApiError {
    BadRequest,
    NotFound,
    Conflict,
    Internal,
}

impl ApiError {
    /// The HTTP status code of the failure.
    pub fn status_code(&self) -> (res: u16)
        ensures
            res == (match *self {
                ApiError::BadRequest => 400u16,
                ApiError::NotFound => 404u16,
                ApiError::Conflict => 409u16,
                ApiError::Internal => 500u16,
            }),
    {
        match self {
            ApiError::BadRequest => 400,
            ApiError::NotFound => 404,
            ApiError::Conflict => 409,
            ApiError::Internal => 500,
        }
    }
}

/// The longest title accepted, in bytes.
pub const MAX_TITLE_BYTES: usize = 500;

/// The longest description accepted, in bytes.
pub const MAX_DESCRIPTION_BYTES: usize = 10000;

/// The priority a request asks for: `P0` and `P2` by name, `P1` otherwise.
pub open spec fn requested_priority(p: Seq<char>) -> Priority {
    if p == "P0"@ {
        Priority::P0
    } else if p == "P2"@ {
        Priority::P2
    } else {
        Priority::P1
    }
}

/// Checks a create request: the title must be non-empty and at most 500
/// bytes, the description at most 10 000 bytes; gives the priority asked for.
pub fn validate_create_request(req: &CreateItem) -> (res: Result<Priority, ApiError>)
    ensures
        (req.title@.len() == 0 || byte_len(req.title@) > MAX_TITLE_BYTES || byte_len(
            req.description@,
        ) > MAX_DESCRIPTION_BYTES) ==> res == Err::<Priority, ApiError>(ApiError::BadRequest),
        !(req.title@.len() == 0 || byte_len(req.title@) > MAX_TITLE_BYTES || byte_len(
            req.description@,
        ) > MAX_DESCRIPTION_BYTES) ==> res == Ok::<Priority, ApiError>(
            requested_priority(req.priority@),
        ),
{
    let title = chars_of(req.title.as_str());
    if title.len() == 0 || byte_len_exceeds(&title, MAX_TITLE_BYTES) {
        return Err(ApiError::BadRequest);
    }
    let description = chars_of(req.description.as_str());
    if byte_len_exceeds(&description, MAX_DESCRIPTION_BYTES) {
        return Err(ApiError::BadRequest);
    }
    let p = req.priority.as_str();
    if str_is(p, "P0") {
        Ok(Priority::P0)
    } else if str_is(p, "P2") {
        Ok(Priority::P2)
    } else {
        Ok(Priority::P1)
    }
}

/// Why the board refused a claim.
#[derive(Debug, Clone, Copy, PartialEq, Eq, Structural)]
pub enum ClaimFailure {
    /// No such item.
    NotFound,
    /// Another rig holds it.
    AlreadyClaimed,
    /// Any other refusal (the item is done, for instance).
    Other,
}

/// The status a refused claim is answered with.
pub fn claim_error(f: ClaimFailure) -> (res: ApiError)
    ensures
        res == (match f {
            ClaimFailure::NotFound => ApiError::NotFound,
            ClaimFailure::AlreadyClaimed => ApiError::Conflict,
            ClaimFailure::Other => ApiError::BadRequest,
        }),
{
    match f {
        ClaimFailure::NotFound => ApiError::NotFound,
        ClaimFailure::AlreadyClaimed => ApiError::Conflict,
        ClaimFailure::Other => ApiError::BadRequest,
    }
}

/// The answer for a worker that was started.
pub fn worker_started(id: String) -> (res: WorkerResponse)
    ensures
        res.id == id,
        res.status@ == "running"@,
{
    WorkerResponse { id, status: "running" }
}

/// The answer for a worker that was stopped.
pub fn worker_stopped(id: String) -> (res: WorkerResponse)
    ensures
        res.id == id,
        res.status@ == "stopped"@,
{
    WorkerResponse { id, status: "stopped" }
}

/// The text of a failed worker request.
pub fn failure_text(error: &str) -> (res: String)
    ensures
        res@ == "Failed: "@ + error@,
{
    let mut out: Vec<char> = Vec::new();
    push_str(&mut out, "Failed: ");
    push_str(&mut out, error);
    string_of(&out)
}

/// The text of a memory promotion to an unknown scope.
pub fn invalid_scope_text(scope: &str) -> (res: String)
    ensures
        res@ == "invalid scope: "@ + scope@,
{
    let mut out: Vec<char> = Vec::new();
    push_str(&mut out, "invalid scope: ");
    push_str(&mut out, scope);
    string_of(&out)
}

/// The text of a failed memory promotion.
pub fn promote_failed_text(error: &str) -> (res: String)
    ensures
        res@ == "Promote failed: "@ + error@,
{
    let mut out: Vec<char> = Vec::new();
    push_str(&mut out, "Promote failed: ");
    push_str(&mut out, error);
    string_of(&out)
}

// ---------------------------------------------------------------------------
// Skills across rigs
// ---------------------------------------------------------------------------

/// The skills of all sources, one per name: for each name the last skill
/// of that name in `all` (overrides come after the base list, so they win).
pub open spec fn last_by_name(all: Seq<LoadedSkill>) -> Seq<LoadedSkill> {
    let r = all.reverse();
    first_occurrences(skill_names(r)).map_values(|i: int| r[i]).reverse()
}

fn reversed<T>(v: Vec<T>) -> (res: Vec<T>)
    ensures
        res@ == v@.reverse(),
{
    let ghost orig = v@;
    let mut v = v;
    let mut out: Vec<T> = Vec::new();
    while v.len() > 0
        invariant
            out@ + v@.reverse() == orig.reverse(),
        decreases v@.len(),
    {
        let ghost before = v@;
        let x = v.pop().unwrap();
        proof {
            assert(before == v@.push(x));
            assert(before.reverse() =~= seq![x] + v@.reverse());
        }
        out.push(x);
        assert(out@ + v@.reverse() =~= orig.reverse());
    }
    assert(v@.reverse() =~= Seq::<T>::empty());
    assert(out@ =~= orig.reverse());
    out
}

/// Merges the skills of all sources, overrides winning over the base list
/// (and later skills over earlier ones) for skills of the same name.
pub fn merge_skill_sources(base: Vec<LoadedSkill>, overrides: Vec<LoadedSkill>) -> (res: Vec<
    LoadedSkill,
>)
    ensures
        res@ == last_by_name(base@ + overrides@),
{
    let ghost all = base@ + overrides@;
    let mut all_v = base;
    let mut o = overrides;
    all_v.append(&mut o);
    assert(all_v@ == all);
    let r = reversed(all_v);
    let kept = keep_first_by_name(r);
    let ghost rv = all.reverse();
    assert(kept@ =~= first_occurrences(skill_names(rv)).map_values(|i: int| rv[i]));
    reversed(kept)
}

/// Some skill of `v` is named `x`.
pub open spec fn has_skill_named(v: Seq<LoadedSkill>, x: Seq<char>) -> bool {
    exists|k: int| 0 <= k < v.len() && #[trigger] v[k].name@ == x
}

/// Merging keeps one skill per name: no two merged skills share a name,
/// and every skill of either list has its name among the merged ones.
pub proof fn law_merge_one_per_name(all: Seq<LoadedSkill>)
    ensures
        forall|m: int, n: int|
            0 <= m < n < last_by_name(all).len() ==> #[trigger] last_by_name(all)[m].name@
                != #[trigger] last_by_name(all)[n].name@,
        forall|i: int|
            0 <= i < all.len() ==> #[trigger] has_skill_named(last_by_name(all), all[i].name@),
{
    let r = all.reverse();
    let names = skill_names(r);
    let fo = first_occurrences(names);
    crate::skills_load::lemma_first_occurrences_bounds(names);
    crate::skills_load::law_kept_names_distinct(names);
    crate::skills_load::law_every_name_kept(names);
    let kept = fo.map_values(|i: int| r[i]);
    let res = last_by_name(all);
    assert(res == kept.reverse());
    let len = kept.len();
    assert forall|k: int| 0 <= k < len implies #[trigger] res[k].name@ == names[fo[len - 1 - k]] by {
        assert(res[k] == kept[len - 1 - k]);
        assert(kept[len - 1 - k] == r[fo[len - 1 - k]]);
    }
    assert forall|m: int, n: int|
        0 <= m < n < res.len() implies #[trigger] res[m].name@ != #[trigger] res[n].name@ by {
        assert(res[m].name@ == names[fo[len - 1 - m]]);
        assert(res[n].name@ == names[fo[len - 1 - n]]);
        assert(0 <= len - 1 - n < len - 1 - m < fo.len());
        assert(names[fo[len - 1 - n]] != names[fo[len - 1 - m]]);
    }
    assert forall|i: int| 0 <= i < all.len() implies #[trigger] has_skill_named(
        res,
        all[i].name@,
    ) by {
        let j = all.len() - 1 - i;
        assert(r[j] == all[i]);
        assert(names[j] == all[i].name@);
        assert(crate::skills_load::name_kept(names, names[j]));
        let m = choose|m: int| 0 <= m < fo.len() && names[#[trigger] fo[m]] == names[j];
        let k = len - 1 - m;
        assert(res[k].name@ == names[fo[m]]);
        assert(0 <= k < res.len() && res[k].name@ == all[i].name@);
    }
}

/// The name shown for a scope.
pub open spec fn scope_name_text(s: SkillScope) -> Seq<char> {
    match s {
        SkillScope::Installed => "installed"@,
        SkillScope::Learned => "learned"@,
    }
}

/// The name shown for a scope.
pub fn scope_name(s: SkillScope) -> (res: &'static str)
    ensures
        res@ == scope_name_text(s),
{
    match s {
        SkillScope::Installed => "installed",
        SkillScope::Learned => "learned",
    }
}

/// The name shown for a lifecycle stage.
pub open spec fn lifecycle_name_text(l: Lifecycle) -> Seq<char> {
    match l {
        Lifecycle::Active => "active"@,
        Lifecycle::Dormant => "dormant"@,
        Lifecycle::Archived => "archived"@,
    }
}

/// The name shown for a lifecycle stage.
pub fn lifecycle_name(l: Lifecycle) -> (res: &'static str)
    ensures
        res@ == lifecycle_name_text(l),
{
    match l {
        Lifecycle::Active => "active",
        Lifecycle::Dormant => "dormant",
        Lifecycle::Archived => "archived",
    }
}

/// Which scope a (canonical) skill path is in: `rig:<id>` under the rigs
/// directory, `project` under the project's skills, `global` otherwise.
pub open spec fn scope_of_path(
    path: Seq<char>,
    rigs: Option<Seq<char>>,
    project: Option<Seq<char>>,
) -> Seq<char> {
    let rig = match rigs {
        Some(r) => first_component_under(path, r),
        None => None,
    };
    match rig {
        Some(id) => "rig:"@ + id,
        None => if (project matches Some(p) && path_starts_with(path, p)) {
            "project"@
        } else {
            "global"@
        },
    }
}

/// The scope a skill path is in.
pub fn classify_scope(path: &str, rigs: Option<&str>, project: Option<&str>) -> (res: String)
    ensures
        res@ == scope_of_path(
            path@,
            match rigs {
                Some(r) => Some(r@),
                None => None,
            },
            match project {
                Some(p) => Some(p@),
                None => None,
            },
        ),
{
    let rig = match rigs {
        Some(r) => component_under(path, r),
        None => None,
    };
    match rig {
        Some(id) => {
            let mut out: Vec<char> = Vec::new();
            push_str(&mut out, "rig:");
            push_str(&mut out, id.as_str());
            string_of(&out)
        },
        None => match project {
            Some(p) => if starts_with_path(path, p) {
                "project".to_string()
            } else {
                "global".to_string()
            },
            None => "global".to_string(),
        },
    }
}

/// Where the skills live under a home directory: the global skills, the
/// project's skills when that directory exists, and the rigs.
pub fn skill_dirs(home: &str, project_dir_exists: bool) -> (res: (String, Option<String>, String))
    ensures
        res.0@ == join_spec(home@, ".opengoose/skills"@),
        match res.1 {
            Some(p) => project_dir_exists && p@ == ".opengoose/skills"@,
            None => !project_dir_exists,
        },
        res.2@ == join_spec(home@, ".opengoose/rigs"@),
{
    let global_dir = join(home, ".opengoose/skills");
    let rigs_base = join(home, ".opengoose/rigs");
    let project = if project_dir_exists {
        Some(".opengoose/skills".to_string())
    } else {
        None
    };
    (global_dir, project, rigs_base)
}

} // verus!
