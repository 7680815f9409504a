//! The skill hierarchy: which directories are scanned and in what order
//! (rig, then project, then global), which copy of a skill wins, how learned
//! skills age, and the catalog of skills offered to an agent.

use vstd::prelude::*;

use crate::frontmatter::frontmatter_of;

use crate::paths::{join, join_spec};
use crate::text::{chars_of, find, find_first, has_prefix, push_str, string_of, trim_start};

verus! {

// ---------------------------------------------------------------------------
// Lifecycle
// ---------------------------------------------------------------------------

/// How fresh a learned skill is.
#[derive(Debug, Clone, Copy, PartialEq, Eq, Structural)]
pub enum Lifecycle {
    /// Included or generated within the last 30 days.
    Active,
    /// 31 to 120 days.
    Dormant,
    /// More than 120 days.
    Archived,
}

/// The lifecycle stage after `days` days without inclusion.
pub open spec fn lifecycle_of_days(days: int) -> Lifecycle {
    if days <= 30 {
        Lifecycle::Active
    } else if days <= 120 {
        Lifecycle::Dormant
    } else {
        Lifecycle::Archived
    }
}

/// The lifecycle stage after `days` days without inclusion.
pub fn lifecycle_from_days(days: i64) -> (res: Lifecycle)
    ensures
        res == lifecycle_of_days(days as int),
{
    if days <= 30 {
        Lifecycle::Active
    } else if days <= 120 {
        Lifecycle::Dormant
    } else {
        Lifecycle::Archived
    }
}

/// The instant chrono reads in the RFC 3339 text `s`, as whole seconds
/// since the Unix epoch and the nanoseconds past that second; `None` when
/// chrono does not parse `s`.
pub uninterp spec fn rfc3339_instant(s: Seq<char>) -> Option<(i64, u32)>;

/// Parses an RFC 3339 date and time.
///
/// Calls `chrono::DateTime::parse_from_rfc3339` and reads the parsed
/// instant with `timestamp` and `timestamp_subsec_nanos`. The contract
/// names the result: it depends on `s` alone.
#[verifier::external_body]
fn parse_rfc3339_instant(s: &str) -> (res: Option<(i64, u32)>)
    ensures
        res == rfc3339_instant(s@),
{
    chrono::DateTime::parse_from_rfc3339(s).ok().map(|d| (d.timestamp(), d.timestamp_subsec_nanos()))
}

/// The current time, as whole seconds since the Unix epoch and the
/// nanoseconds past that second.
///
/// Calls `chrono::Utc::now()`. Nothing is claimed of the value: it is the
/// clock's.
#[verifier::external_body]
fn clock_now() -> (res: (i64, u32)) {
    let now = chrono::Utc::now();
    (now.timestamp(), now.timestamp_subsec_nanos())
}

/// An instant in nanoseconds since the Unix epoch.
pub open spec fn instant_nanos(t: (i64, u32)) -> int {
    t.0 as int * 1_000_000_000 + t.1 as int
}

/// `a / b` rounded toward zero (`b > 0`).
pub open spec fn div_toward_zero(a: int, b: int) -> int {
    if a >= 0 {
        a / b
    } else {
        -((-a) / b)
    }
}

/// Whole days from `from` to `to`, rounded toward zero as
/// `TimeDelta::num_days` counts them (negative when `to` is earlier).
pub open spec fn days_between(from: (i64, u32), to: (i64, u32)) -> int {
    div_toward_zero(instant_nanos(to) - instant_nanos(from), 86_400_000_000_000)
}

/// The instant a learned skill ages from: its last inclusion when that
/// date parses, else its generation when that one does, else `now` (a
/// skill with no readable date counts as just generated).
pub open spec fn aging_instant(
    generated_at: Seq<char>,
    last_included_at: Option<Seq<char>>,
    now: (i64, u32),
) -> (i64, u32) {
    let from_last = match last_included_at {
        Some(l) => rfc3339_instant(l),
        None => None,
    };
    match from_last {
        Some(t) => t,
        None => match rfc3339_instant(generated_at) {
            Some(t) => t,
            None => now,
        },
    }
}

/// The text of an optional string.
pub open spec fn str_opt_view(o: Option<&str>) -> Option<Seq<char>> {
    match o {
        Some(s) => Some(s@),
        None => None,
    }
}

/// The lifecycle stage at `now` of a skill with these metadata dates.
pub open spec fn lifecycle_when(
    generated_at: Seq<char>,
    last_included_at: Option<Seq<char>>,
    now: (i64, u32),
) -> Lifecycle {
    lifecycle_of_days(days_between(aging_instant(generated_at, last_included_at, now), now))
}

/// The lifecycle stage of a learned skill at the instant `now`, from its
/// metadata dates (RFC 3339): by the whole days since its last inclusion,
/// or since its generation when it was never included (or that date does
/// not parse); with no readable date it is active.
pub fn lifecycle_at_time(generated_at: &str, last_included_at: Option<&str>, now: (i64, u32)) -> (res:
    Lifecycle)
    ensures
        res == lifecycle_when(generated_at@, str_opt_view(last_included_at), now),
{
    let from_last = match last_included_at {
        Some(l) => parse_rfc3339_instant(l),
        None => None,
    };
    let from = match from_last {
        Some(t) => t,
        None => match parse_rfc3339_instant(generated_at) {
            Some(t) => t,
            None => now,
        },
    };
    let (fs, fn_) = from;
    let (ns, nn) = now;
    assert(-9_223_372_036_854_775_808_000_000_000 <= fs as int * 1_000_000_000
        <= 9_223_372_036_854_775_807_000_000_000) by (nonlinear_arith)
        requires
            i64::MIN <= fs <= i64::MAX,
    ;
    assert(-9_223_372_036_854_775_808_000_000_000 <= ns as int * 1_000_000_000
        <= 9_223_372_036_854_775_807_000_000_000) by (nonlinear_arith)
        requires
            i64::MIN <= ns <= i64::MAX,
    ;
    let a: i128 = fs as i128 * 1_000_000_000 + fn_ as i128;
    let b: i128 = ns as i128 * 1_000_000_000 + nn as i128;
    let d: i128 = b - a;
    let days: i128 = if d >= 0 {
        d / 86_400_000_000_000
    } else {
        -((-d) / 86_400_000_000_000)
    };
    if days <= 30 {
        Lifecycle::Active
    } else if days <= 120 {
        Lifecycle::Dormant
    } else {
        Lifecycle::Archived
    }
}

/// The lifecycle stage of a learned skill now, from its metadata dates
/// (RFC 3339); see `lifecycle_at_time`, which this calls with the clock's
/// time. With no readable date the skill is active.
pub fn determine_lifecycle(generated_at: &str, last_included_at: Option<&str>) -> (res: Lifecycle)
    ensures
        exists|now: (i64, u32)|
            res == #[trigger] lifecycle_when(generated_at@, str_opt_view(last_included_at), now),
{
    let now = clock_now();
    let res = lifecycle_at_time(generated_at, last_included_at, now);
    assert(res == lifecycle_when(generated_at@, str_opt_view(last_included_at), now));
    res
}

// ---------------------------------------------------------------------------
// Loaded skills and the scan order
// ---------------------------------------------------------------------------

/// Where a skill comes from.
#[derive(Debug, Clone, Copy, PartialEq, Eq, Structural)]
pub enum SkillScope {
    /// Installed by hand; never ages.
    Installed,
    /// Generated from experience; ages and may be dropped.
    Learned,
}

/// A skill found on disk.
#[derive(Debug, Clone)]
pub struct LoadedSkill {
    pub name: String,
    pub description: String,
    pub path: String,
    pub content: String,
    pub scope: SkillScope,
}

/// The directories scanned for skills, most specific first: the rig's own
/// learned skills, then the project's installed and learned skills, then
/// the global ones.
pub open spec fn scan_order_spec(
    global_dir: Seq<char>,
    project_dir: Option<Seq<char>>,
    rig_id: Option<Seq<char>>,
    rigs_base: Seq<char>,
) -> Seq<(Seq<char>, SkillScope)> {
    let rig = match rig_id {
        Some(r) => seq![(join_spec(join_spec(rigs_base, r), "skills/learned"@), SkillScope::Learned)],
        None => Seq::empty(),
    };
    let project = match project_dir {
        Some(p) => seq![
            (join_spec(p, "installed"@), SkillScope::Installed),
            (join_spec(p, "learned"@), SkillScope::Learned),
        ],
        None => Seq::empty(),
    };
    rig + project + seq![
        (join_spec(global_dir, "installed"@), SkillScope::Installed),
        (join_spec(global_dir, "learned"@), SkillScope::Learned),
    ]
}

/// The view of a scan plan.
pub open spec fn plan_view(v: Seq<(String, SkillScope)>) -> Seq<(Seq<char>, SkillScope)> {
    v.map_values(|e: (String, SkillScope)| (e.0@, e.1))
}

/// The directories to scan for skills, in priority order.
pub fn scan_order(
    global_dir: &str,
    project_dir: Option<&str>,
    rig_id: Option<&str>,
    rigs_base: &str,
) -> (res: Vec<(String, SkillScope)>)
    ensures
        plan_view(res@) == scan_order_spec(
            global_dir@,
            match project_dir {
                Some(p) => Some(p@),
                None => None,
            },
            match rig_id {
                Some(r) => Some(r@),
                None => None,
            },
            rigs_base@,
        ),
{
    let mut res: Vec<(String, SkillScope)> = Vec::new();
    if let Some(r) = rig_id {
        let rig_dir = join(rigs_base, r);
        res.push((join(rig_dir.as_str(), "skills/learned"), SkillScope::Learned));
    }
    if let Some(p) = project_dir {
        res.push((join(p, "installed"), SkillScope::Installed));
        res.push((join(p, "learned"), SkillScope::Learned));
    }
    res.push((join(global_dir, "installed"), SkillScope::Installed));
    res.push((join(global_dir, "learned"), SkillScope::Learned));
    proof {
        assert(plan_view(res@) =~= scan_order_spec(
            global_dir@,
            match project_dir {
                Some(p) => Some(p@),
                None => None,
            },
            match rig_id {
                Some(r) => Some(r@),
                None => None,
            },
            rigs_base@,
        ));
    }
    res
}

/// The name of some entry before index `i` equals the name at `i`.
pub open spec fn name_seen_before(names: Seq<Seq<char>>, i: int) -> bool {
    exists|j: int| 0 <= j < i && names[j] == names[i]
}

/// The indices of the first occurrence of each name, in order.
pub open spec fn first_occurrences(names: Seq<Seq<char>>) -> Seq<int>
    decreases names.len(),
{
    if names.len() == 0 {
        Seq::empty()
    } else {
        let i = names.len() - 1;
        let prev = first_occurrences(names.drop_last());
        if name_seen_before(names, i) {
            prev
        } else {
            prev.push(i)
        }
    }
}

/// The indices of the first entry of each name (`HashSet::insert` as a filter).
pub fn first_occurrence_indices(names: &Vec<String>) -> (res: Vec<usize>)
    ensures
        res@.map_values(|i: usize| i as int) == first_occurrences(
            names@.map_values(|s: String| s@),
        ),
{
    let ghost nv = names@.map_values(|s: String| s@);
    let mut res: Vec<usize> = Vec::new();
    let mut i: usize = 0;
    while i < names.len()
        invariant
            i <= names@.len(),
            nv == names@.map_values(|s: String| s@),
            res@.map_values(|k: usize| k as int) == first_occurrences(nv.take(i as int)),
        decreases names@.len() - i,
    {
        let mut seen = false;
        let mut j: usize = 0;
        while j < i
            invariant
                j <= i < names@.len(),
                nv == names@.map_values(|s: String| s@),
                seen == exists|k: int| 0 <= k < j && nv[k] == nv[i as int],
            decreases i - j,
        {
            proof {
                assert(nv[j as int] == names@[j as int]@);
                assert(nv[i as int] == names@[i as int]@);
            }
            if names[j] == names[i] {
                seen = true;
            }
            j = j + 1;
        }
        proof {
            let t = nv.take(i + 1);
            assert(t.drop_last() =~= nv.take(i as int));
            assert(seen == name_seen_before(t, i as int)) by {
                if seen {
                    let k = choose|k: int| 0 <= k < i && nv[k] == nv[i as int];
                    assert(t[k] == t[i as int]);
                }
                if name_seen_before(t, i as int) {
                    let k = choose|k: int| 0 <= k < i && t[k] == t[i as int];
                    assert(nv[k] == nv[i as int]);
                }
            }
        }
        if !seen {
            res.push(i);
            proof {
                assert(res@.map_values(|k: usize| k as int) =~= first_occurrences(
                    nv.take(i as int),
                ).push(i as int));
            }
        }
        i = i + 1;
    }
    assert(nv.take(names@.len() as int) =~= nv);
    res
}

/// The names of loaded skills.
pub open spec fn skill_names(v: Seq<LoadedSkill>) -> Seq<Seq<char>> {
    v.map_values(|s: LoadedSkill| s.name@)
}

/// The items of `v` at the positions `keep` (increasing), in order.
pub fn take_positions<T>(v: Vec<T>, keep: &Vec<usize>) -> (res: Vec<T>)
    requires
        forall|m: int| 0 <= m < keep@.len() ==> #[trigger] keep@[m] < v@.len(),
        forall|m: int, n: int| 0 <= m < n < keep@.len() ==> keep@[m] < keep@[n],
    ensures
        res@.len() == keep@.len(),
        forall|m: int| 0 <= m < keep@.len() ==> #[trigger] res@[m] == v@[keep@[m] as int],
{
    let ghost orig = v@;
    let n = v.len();
    let mut rest = v;
    let mut out: Vec<T> = Vec::new();
    let mut k: usize = 0;
    let mut i: usize = 0;
    assert(orig.skip(0) =~= orig);
    while rest.len() > 0
        invariant
            n == orig.len(),
            i + rest@.len() == n,
            rest@ == orig.skip(i as int),
            forall|m: int| 0 <= m < keep@.len() ==> #[trigger] keep@[m] < orig.len(),
            forall|m: int, n: int| 0 <= m < n < keep@.len() ==> keep@[m] < keep@[n],
            k <= keep@.len(),
            forall|m: int| 0 <= m < k ==> #[trigger] keep@[m] < i,
            k < keep@.len() ==> keep@[k as int] >= i,
            out@.len() == k,
            forall|m: int| 0 <= m < k ==> #[trigger] out@[m] == orig[keep@[m] as int],
        decreases rest@.len(),
    {
        let s = rest.remove(0);
        assert(s == orig[i as int]);
        if k < keep.len() && keep[k] == i {
            out.push(s);
            k = k + 1;
        }
        i = i + 1;
        assert(rest@ =~= orig.skip(i as int));
    }
    proof {
        if k < keep@.len() {
            assert(keep@[k as int] < orig.len());
        }
    }
    out
}

/// Keeps the first skill of each name, in order: a skill found in a more
/// specific scope hides later ones of the same name.
pub fn keep_first_by_name(found: Vec<LoadedSkill>) -> (res: Vec<LoadedSkill>)
    ensures
        res@.len() == first_occurrences(skill_names(found@)).len(),
        forall|k: int|
            0 <= k < res@.len() ==> #[trigger] res@[k] == found@[first_occurrences(
                skill_names(found@),
            )[k]],
{
    let mut names: Vec<String> = Vec::new();
    let mut i: usize = 0;
    while i < found.len()
        invariant
            i <= found@.len(),
            names@.len() == i,
            forall|k: int| 0 <= k < i ==> #[trigger] names@[k]@ == found@[k].name@,
        decreases found@.len() - i,
    {
        names.push(found[i].name.clone());
        i = i + 1;
    }
    assert(names@.map_values(|s: String| s@) =~= skill_names(found@));
    let keep = first_occurrence_indices(&names);
    let ghost fo = first_occurrences(skill_names(found@));
    proof {
        lemma_first_occurrences_bounds(skill_names(found@));
        assert forall|m: int| 0 <= m < keep@.len() implies #[trigger] keep@[m] < found@.len() by {
            assert(keep@.map_values(|j: usize| j as int)[m] == keep@[m] as int);
        }
        assert forall|m: int, n: int| 0 <= m < n < keep@.len() implies keep@[m] < keep@[n] by {
            assert(keep@.map_values(|j: usize| j as int)[m] == keep@[m] as int);
            assert(keep@.map_values(|j: usize| j as int)[n] == keep@[n] as int);
        }
    }
    let ghost orig = found@;
    let out = take_positions(found, &keep);
    proof {
        assert forall|m: int| 0 <= m < out@.len() implies #[trigger] out@[m] == orig[fo[m]] by {
            assert(keep@.map_values(|j: usize| j as int)[m] == keep@[m] as int);
        }
    }
    out
}

pub proof fn lemma_first_occurrences_bounds(names: Seq<Seq<char>>)
    ensures
        forall|m: int|
            0 <= m < first_occurrences(names).len() ==> 0 <= #[trigger] first_occurrences(
                names,
            )[m] < names.len(),
        forall|m: int, n: int|
            0 <= m < n < first_occurrences(names).len() ==> first_occurrences(names)[m]
                < first_occurrences(names)[n],
    decreases names.len(),
{
    if names.len() > 0 {
        let p = names.drop_last();
        lemma_first_occurrences_bounds(p);
        let f = first_occurrences(names);
        let fp = first_occurrences(p);
        assert(f == fp || f == fp.push(names.len() - 1));
        assert forall|m: int| 0 <= m < f.len() implies 0 <= #[trigger] f[m] < names.len() by {
            if m < fp.len() {
                assert(f[m] == fp[m]);
            }
        }
        assert forall|m: int, n: int| 0 <= m < n < f.len() implies f[m] < f[n] by {
            assert(f[m] == fp[m]);
            if n < fp.len() {
                assert(f[n] == fp[n]);
            }
        }
    }
}

/// After keeping the first skill of each name, no two kept skills share a
/// name.
pub proof fn law_kept_names_distinct(names: Seq<Seq<char>>)
    ensures
        forall|m: int, n: int|
            0 <= m < n < first_occurrences(names).len() ==> names[first_occurrences(names)[m]]
                != names[first_occurrences(names)[n]],
    decreases names.len(),
{
    lemma_first_occurrences_bounds(names);
    if names.len() > 0 {
        let p = names.drop_last();
        law_kept_names_distinct(p);
        lemma_first_occurrences_bounds(p);
        let last = names.len() - 1;
        let f = first_occurrences(names);
        let fp = first_occurrences(p);
        assert forall|m: int, n: int| 0 <= m < n < f.len() implies names[f[m]] != names[f[n]] by {
            assert(f[m] == fp[m]);
            assert(names[fp[m]] == p[fp[m]]);
            if n == fp.len() {
                assert(f[n] == last);
                assert(!name_seen_before(names, last));
                if names[f[m]] == names[last] {
                    assert(0 <= f[m] < last);
                }
            } else {
                assert(f[n] == fp[n]);
                assert(names[fp[n]] == p[fp[n]]);
                assert(p[fp[m]] != p[fp[n]]);
            }
        }
    }
}

/// Whether some kept entry carries the name `x`.
pub open spec fn name_kept(names: Seq<Seq<char>>, x: Seq<char>) -> bool {
    exists|m: int|
        0 <= m < first_occurrences(names).len() && names[#[trigger] first_occurrences(names)[m]]
            == x
}

/// Keeping the first skill of each name loses no name: every name found is
/// the name of a kept skill.
pub proof fn law_every_name_kept(names: Seq<Seq<char>>)
    ensures
        forall|i: int| 0 <= i < names.len() ==> #[trigger] name_kept(names, names[i]),
    decreases names.len(),
{
    lemma_first_occurrences_bounds(names);
    if names.len() > 0 {
        let p = names.drop_last();
        law_every_name_kept(p);
        lemma_first_occurrences_bounds(p);
        let last = names.len() - 1;
        let f = first_occurrences(names);
        let fp = first_occurrences(p);
        assert forall|m: int| 0 <= m < fp.len() implies f[m] == fp[m] && names[f[m]] == p[
            fp[m]
        ] by {}
        assert forall|i: int| 0 <= i < names.len() implies #[trigger] name_kept(names, names[i]) by {
            if i < last {
                assert(p[i] == names[i]);
                assert(name_kept(p, p[i]));
                let m = choose|m: int|
                    0 <= m < fp.len() && p[#[trigger] fp[m]] == p[i];
                assert(f[m] == fp[m]);
                assert(names[f[m]] == names[i]);
            } else if name_seen_before(names, last) {
                let j = choose|j: int| 0 <= j < last && names[j] == names[last];
                assert(p[j] == names[j]);
                assert(name_kept(p, p[j]));
                let m = choose|m: int|
                    0 <= m < fp.len() && p[#[trigger] fp[m]] == p[j];
                assert(f[m] == fp[m]);
                assert(names[f[m]] == names[i]);
            } else {
                assert(f[fp.len() as int] == last);
                assert(names[f[fp.len() as int]] == names[i]);
            }
        }
    }
}

// ---------------------------------------------------------------------------
// The catalog
// ---------------------------------------------------------------------------

/// What the metadata of a learned skill says about it.
#[derive(Debug, Clone, Copy, PartialEq, Eq, Structural)]
pub struct SkillStanding {
    pub lifecycle: Lifecycle,
    /// Whether scores improved after the skill was adopted; `None` when
    /// there is not enough data yet.
    pub effective: Option<bool>,
}

/// The place of a skill in the catalog: 0 for installed skills, then 1 for
/// learned skills known to be effective, 2 for learned skills without a
/// verdict; -1 for skills left out (learned skills that are no longer
/// active, or known to be ineffective).
pub open spec fn catalog_class(s: LoadedSkill, st: Option<SkillStanding>) -> int {
    match s.scope {
        SkillScope::Installed => 0,
        SkillScope::Learned => match st {
            None => 2,
            Some(m) => if m.lifecycle != Lifecycle::Active || m.effective == Some(false) {
                -1
            } else if m.effective == Some(true) {
                1
            } else {
                2
            },
        },
    }
}

/// The indices below `n` of the skills in class `c`, in order.
pub open spec fn indices_in_class(
    skills: Seq<LoadedSkill>,
    standing: Seq<Option<SkillStanding>>,
    c: int,
    n: int,
) -> Seq<int>
    decreases n,
{
    if n <= 0 {
        Seq::empty()
    } else {
        let prev = indices_in_class(skills, standing, c, n - 1);
        if catalog_class(skills[n - 1], standing[n - 1]) == c {
            prev.push(n - 1)
        } else {
            prev
        }
    }
}

/// The skills offered, in catalog order: installed skills first, then
/// effective learned skills, then learned skills without a verdict, each
/// group in the order found (the stable sort by class).
pub open spec fn catalog_order(skills: Seq<LoadedSkill>, standing: Seq<Option<SkillStanding>>) -> Seq<
    int,
> {
    let n = skills.len() as int;
    indices_in_class(skills, standing, 0, n) + indices_in_class(skills, standing, 1, n)
        + indices_in_class(skills, standing, 2, n)
}

/// The catalog line of one skill: `- **name**: description`.
pub open spec fn catalog_line(s: LoadedSkill) -> Seq<char> {
    "- **"@ + s.name@ + "**: "@ + s.description@ + "\n"@
}

/// The catalog lines of the skills at `idxs`, in order.
pub open spec fn catalog_lines(skills: Seq<LoadedSkill>, idxs: Seq<int>) -> Seq<char>
    decreases idxs.len(),
{
    if idxs.len() == 0 {
        Seq::empty()
    } else {
        catalog_lines(skills, idxs.drop_last()) + catalog_line(skills[idxs.last()])
    }
}

/// The first `cap` entries of `s`.
pub open spec fn take_at_most<A>(s: Seq<A>, cap: int) -> Seq<A> {
    if s.len() <= cap {
        s
    } else {
        s.take(cap)
    }
}

/// The catalog text: nothing when no skill is offered, otherwise a heading
/// and one line for each of the first `cap` skills in catalog order.
pub open spec fn catalog_text(
    skills: Seq<LoadedSkill>,
    standing: Seq<Option<SkillStanding>>,
    cap: int,
) -> Seq<char> {
    let order = catalog_order(skills, standing);
    if order.len() == 0 {
        Seq::empty()
    } else {
        "# Available Skills\n\n"@ + catalog_lines(skills, take_at_most(order, cap))
    }
}

/// A skill catalog and the learned skills it includes.
pub struct Catalog {
    /// The catalog text for the system prompt.
    pub text: String,
    /// The indices of the learned skills listed, whose inclusion should be
    /// recorded in their metadata.
    pub included_learned: Vec<usize>,
}

fn class_exec(s: &LoadedSkill, st: &Option<SkillStanding>) -> (res: i8)
    ensures
        res as int == catalog_class(*s, *st),
{
    match s.scope {
        SkillScope::Installed => 0,
        SkillScope::Learned => match st {
            None => 2,
            Some(m) => {
                if m.lifecycle != Lifecycle::Active {
                    -1
                } else {
                    match m.effective {
                        Some(false) => -1,
                        Some(true) => 1,
                        None => 2,
                    }
                }
            },
        },
    }
}

fn push_class(
    skills: &[LoadedSkill],
    standing: &[Option<SkillStanding>],
    c: i8,
    out: &mut Vec<usize>,
)
    requires
        skills@.len() == standing@.len(),
    ensures
        final(out)@.map_values(|i: usize| i as int) == old(out)@.map_values(|i: usize| i as int)
            + indices_in_class(skills@, standing@, c as int, skills@.len() as int),
        forall|k: int| 0 <= k < final(out)@.len() ==> #[trigger] final(out)@[k] < skills@.len() || k
            < old(out)@.len(),
        forall|k: int| 0 <= k < old(out)@.len() ==> #[trigger] final(out)@[k] == old(out)@[k],
        final(out)@.len() >= old(out)@.len(),
{
    let ghost start = old(out)@.map_values(|i: usize| i as int);
    let mut i: usize = 0;
    while i < skills.len()
        invariant
            i <= skills@.len() == standing@.len(),
            out@.len() >= old(out)@.len(),
            forall|k: int| 0 <= k < old(out)@.len() ==> out@[k] == old(out)@[k],
            out@.map_values(|j: usize| j as int) == start + indices_in_class(
                skills@,
                standing@,
                c as int,
                i as int,
            ),
            forall|k: int| 0 <= k < out@.len() ==> #[trigger] out@[k] < skills@.len() || k < old(
                out,
            )@.len(),
        decreases skills@.len() - i,
    {
        let ghost prev = out@.map_values(|j: usize| j as int);
        let cl = class_exec(&skills[i], &standing[i]);
        proof {
            assert(indices_in_class(skills@, standing@, c as int, i + 1) == if catalog_class(
                skills@[i as int],
                standing@[i as int],
            ) == c {
                indices_in_class(skills@, standing@, c as int, i as int).push(i as int)
            } else {
                indices_in_class(skills@, standing@, c as int, i as int)
            });
        }
        if cl == c {
            out.push(i);
            proof {
                assert(out@.map_values(|j: usize| j as int) =~= prev.push(i as int));
                assert(out@.map_values(|j: usize| j as int) =~= start + indices_in_class(
                    skills@,
                    standing@,
                    c as int,
                    i + 1,
                ));
            }
        }
        i = i + 1;
    }
}

/// Builds the catalog of skills for a system prompt: installed skills
/// always, learned skills only while active and not known to be
/// ineffective, in catalog order, at most `cap` of them. `standing[i]` is
/// what the metadata of `skills[i]` says (`None` when it has none).
pub fn build_catalog_capped(
    skills: &[LoadedSkill],
    standing: &[Option<SkillStanding>],
    cap: usize,
) -> (res: Catalog)
    requires
        skills@.len() == standing@.len(),
    ensures
        res.text@ == catalog_text(skills@, standing@, cap as int),
        res.included_learned@.map_values(|i: usize| i as int) == take_at_most(
            catalog_order(skills@, standing@),
            cap as int,
        ).filter(|i: int| skills@[i].scope == SkillScope::Learned),
        // Only learned skills that are active and not ineffective (or
        // without metadata) are ever included.
        forall|k: int|
            0 <= k < res.included_learned@.len() ==> {
                let i = #[trigger] res.included_learned@[k] as int;
                0 <= i < skills@.len() && skills@[i].scope == SkillScope::Learned && may_offer(
                    skills@[i],
                    standing@[i],
                )
            },
{
    proof {
        lemma_included_offered(skills@, standing@, cap as int);
        assert(included_learned_order(skills@, standing@, cap as int) == take_at_most(
            catalog_order(skills@, standing@),
            cap as int,
        ).filter(|i: int| skills@[i].scope == SkillScope::Learned));
    }
    let mut order: Vec<usize> = Vec::new();
    push_class(skills, standing, 0, &mut order);
    push_class(skills, standing, 1, &mut order);
    push_class(skills, standing, 2, &mut order);
    let ghost ord = catalog_order(skills@, standing@);
    assert(order@.map_values(|i: usize| i as int) =~= ord);
    let mut included: Vec<usize> = Vec::new();
    if order.len() == 0 {
        assert(take_at_most(ord, cap as int) =~= Seq::<int>::empty());
        proof {
            assert(take_at_most(ord, cap as int).filter(
                |i: int| skills@[i].scope == SkillScope::Learned,
            ) =~= Seq::<int>::empty()) by {
                reveal_with_fuel(Seq::<_>::filter, 1);
            }
        }
        return Catalog { text: String::new(), included_learned: included };
    }
    let mut out: Vec<char> = Vec::new();
    push_str(&mut out, "# Available Skills\n\n");
    let limit: usize = if order.len() <= cap {
        order.len()
    } else {
        cap
    };
    let ghost head = "# Available Skills\n\n"@;
    assert(out@ =~= head);
    let mut k: usize = 0;
    while k < limit
        invariant
            limit <= order@.len(),
            limit as int == take_at_most(ord, cap as int).len(),
            order@.map_values(|i: usize| i as int) == ord,
            forall|m: int| 0 <= m < order@.len() ==> #[trigger] order@[m] < skills@.len(),
            skills@.len() == standing@.len(),
            k <= limit,
            out@ == head + catalog_lines(skills@, ord.take(k as int)),
            included@.map_values(|i: usize| i as int) == ord.take(k as int).filter(
                |i: int| skills@[i].scope == SkillScope::Learned,
            ),
        decreases limit - k,
    {
        let idx = order[k];
        assert(ord[k as int] == idx as int);
        let s = &skills[idx];
        proof {
            assert(ord.take(k + 1).drop_last() =~= ord.take(k as int));
            assert(ord.take(k + 1).last() == idx as int);
            reveal_with_fuel(Seq::<_>::filter, 1);
        }
        push_str(&mut out, "- **");
        push_str(&mut out, s.name.as_str());
        push_str(&mut out, "**: ");
        push_str(&mut out, s.description.as_str());
        push_str(&mut out, "\n");
        proof {
            assert(out@ =~= head + catalog_lines(skills@, ord.take(k + 1)));
        }
        if s.scope == SkillScope::Learned {
            included.push(idx);
            proof {
                assert(included@.map_values(|i: usize| i as int) =~= ord.take(k + 1).filter(
                    |i: int| skills@[i].scope == SkillScope::Learned,
                ));
            }
        }
        k = k + 1;
    }
    proof {
        if ord.len() <= cap {
            assert(ord.take(k as int) =~= ord);
        }
        let m = included@.map_values(|i: usize| i as int);
        assert(m == included_learned_order(skills@, standing@, cap as int));
        lemma_included_offered(skills@, standing@, cap as int);
        assert forall|j: int| 0 <= j < included@.len() implies {
            let i = #[trigger] included@[j] as int;
            0 <= i < skills@.len() && skills@[i].scope == SkillScope::Learned && may_offer(
                skills@[i],
                standing@[i],
            )
        } by {
            assert(included@[j] as int == m[j]);
            assert(m[j] == included_learned_order(skills@, standing@, cap as int)[j]);
        }
    }
    Catalog { text: string_of(&out), included_learned: included }
}

// ---------------------------------------------------------------------------
// Dormant skills
// ---------------------------------------------------------------------------

/// Whether a learned skill is up for re-evaluation: its metadata says it is
/// dormant or archived (skills without metadata are not).
pub open spec fn is_resting(st: Option<SkillStanding>) -> bool {
    st matches Some(m) && (m.lifecycle == Lifecycle::Dormant || m.lifecycle == Lifecycle::Archived)
}

/// Whether a learned skill is up for re-evaluation.
pub fn is_dormant_or_archived(st: &Option<SkillStanding>) -> (res: bool)
    ensures
        res == is_resting(*st),
{
    match st {
        Some(m) => m.lifecycle == Lifecycle::Dormant || m.lifecycle == Lifecycle::Archived,
        None => false,
    }
}

// ---------------------------------------------------------------------------
// Skill bodies
// ---------------------------------------------------------------------------

/// The body of a SKILL.md text: the text after the YAML frontmatter, or
/// the whole (left-trimmed) text when it has none; nothing when the
/// frontmatter is never closed.
pub open spec fn body_of(content: Seq<char>) -> Option<Seq<char>> {
    body_of_trimmed(trim_start(content))
}

/// The body of a text that starts with no white space.
pub open spec fn body_of_trimmed(t: Seq<char>) -> Option<Seq<char>> {
    if !has_prefix(t, "---"@) {
        Some(t)
    } else {
        let rest = t.skip(3);
        match find_first(rest, "\n---"@) {
            Some(end) => Some(rest.skip(end + 4)),
            None => None,
        }
    }
}

proof fn lemma_body_after_frontmatter(cs: Seq<char>, t: Seq<char>, start: int, end: int)
    requires
        0 <= start <= cs.len(),
        cs.subrange(start, cs.len() as int) == t,
        has_prefix(t, "---"@),
        "---"@.len() == 3,
        find_first(t.skip(3), "\n---"@) == Some(end),
        0 <= end,
        start + 3 + end + 4 <= cs.len(),
    ensures
        body_of_trimmed(t) == Some(cs.subrange(start + 3 + end + 4, cs.len() as int)),
{
    assert(cs.subrange(start + 3 + end + 4, cs.len() as int) =~= t.skip(3).skip(end + 4));
}

/// Where the body of `cs` starts, if it has one.
fn body_start(cs: &Vec<char>) -> (res: Option<usize>)
    ensures
        match res {
            Some(f) => f <= cs@.len() && body_of(cs@) == Some(cs@.subrange(f as int, cs@.len() as int)),
            None => body_of(cs@) is None,
        },
{
    let start = crate::text::trim_start_index(cs);
    let t = crate::text::slice_range(cs, start, cs.len());
    assert(t@ == trim_start(cs@));
    if !crate::text::starts_with_str(&t, "---") {
        return Some(start);
    }
    assert("---"@.len() == 3) by {
        reveal_strlit("---");
    }
    let rest = crate::text::slice_range(&t, 3, t.len());
    assert(rest@ =~= t@.skip(3));
    let pat = chars_of("\n---");
    assert(pat@.len() == 4) by {
        reveal_strlit("\n---");
    }
    match find(&rest, &pat) {
        Some(end) => {
            assert(end + 4 <= rest@.len());
            let from = start + 3 + end + 4;
            proof {
                lemma_body_after_frontmatter(cs@, t@, start as int, end as int);
            }
            Some(from)
        },
        None => None,
    }
}

/// The body of a SKILL.md text, without its frontmatter.
pub fn extract_body(content: &str) -> (res: Option<&str>)
    ensures
        match res {
            Some(b) => body_of(content@) == Some(b@),
            None => body_of(content@) is None,
        },
{
    let cs = chars_of(content);
    match body_start(&cs) {
        Some(from) => Some(content.substring_char(from, cs.len())),
        None => None,
    }
}

/// The members of `indices_in_class(.., c, n)` are positions below `n`
/// whose skill is in class `c`.
proof fn lemma_indices_in_class(
    skills: Seq<LoadedSkill>,
    standing: Seq<Option<SkillStanding>>,
    c: int,
    n: int,
)
    ensures
        forall|k: int|
            0 <= k < indices_in_class(skills, standing, c, n).len() ==> {
                let i = #[trigger] indices_in_class(skills, standing, c, n)[k];
                0 <= i < n && catalog_class(skills[i], standing[i]) == c
            },
    decreases n,
{
    if n > 0 {
        lemma_indices_in_class(skills, standing, c, n - 1);
        let prev = indices_in_class(skills, standing, c, n - 1);
        let cur = indices_in_class(skills, standing, c, n);
        assert forall|k: int| 0 <= k < cur.len() implies {
            let i = #[trigger] cur[k];
            0 <= i < n && catalog_class(skills[i], standing[i]) == c
        } by {
            if k < prev.len() {
                assert(cur[k] == prev[k]);
            }
        }
    }
}

/// Every position below `n` whose skill is in class `c` is listed by
/// `indices_in_class(.., c, n)`.
proof fn lemma_indices_in_class_complete(
    skills: Seq<LoadedSkill>,
    standing: Seq<Option<SkillStanding>>,
    c: int,
    n: int,
    i: int,
)
    requires
        0 <= i < n,
        catalog_class(skills[i], standing[i]) == c,
    ensures
        indices_in_class(skills, standing, c, n).contains(i),
    decreases n,
{
    let cur = indices_in_class(skills, standing, c, n);
    if i == n - 1 {
        assert(cur.last() == i);
    } else {
        lemma_indices_in_class_complete(skills, standing, c, n - 1, i);
        let prev = indices_in_class(skills, standing, c, n - 1);
        let k = choose|k: int| 0 <= k < prev.len() && prev[k] == i;
        assert(cur[k] == prev[k]);
    }
}

/// A learned skill may be offered only while it is active and not known
/// to be ineffective.
pub open spec fn may_offer(s: LoadedSkill, st: Option<SkillStanding>) -> bool {
    s.scope == SkillScope::Learned ==> match st {
        None => true,
        Some(m) => m.lifecycle == Lifecycle::Active && m.effective != Some(false),
    }
}

/// The catalog offers exactly the skills it may: every installed skill,
/// and a learned skill only when its metadata is missing or says it is
/// active and not ineffective (a dormant or archived skill is left out
/// even when it was effective).
pub proof fn law_catalog_offers_only_live_skills(
    skills: Seq<LoadedSkill>,
    standing: Seq<Option<SkillStanding>>,
)
    requires
        skills.len() == standing.len(),
    ensures
        forall|p: int|
            0 <= p < catalog_order(skills, standing).len() ==> {
                let i = #[trigger] catalog_order(skills, standing)[p];
                0 <= i < skills.len() && may_offer(skills[i], standing[i])
            },
        forall|i: int|
            0 <= i < skills.len() && may_offer(skills[i], standing[i]) ==> #[trigger] catalog_order(
                skills,
                standing,
            ).contains(i),
{
    let n = skills.len() as int;
    let c0 = indices_in_class(skills, standing, 0, n);
    let c1 = indices_in_class(skills, standing, 1, n);
    let c2 = indices_in_class(skills, standing, 2, n);
    lemma_indices_in_class(skills, standing, 0, n);
    lemma_indices_in_class(skills, standing, 1, n);
    lemma_indices_in_class(skills, standing, 2, n);
    let order = catalog_order(skills, standing);
    assert(order == c0 + c1 + c2);
    assert forall|p: int| 0 <= p < order.len() implies {
        let i = #[trigger] order[p];
        0 <= i < n && may_offer(skills[i], standing[i])
    } by {
        if p < c0.len() {
            assert(order[p] == c0[p]);
        } else if p < c0.len() + c1.len() {
            assert(order[p] == c1[p - c0.len()]);
        } else {
            assert(order[p] == c2[p - c0.len() - c1.len()]);
        }
    }
    assert forall|i: int| 0 <= i < n && may_offer(skills[i], standing[i]) implies #[trigger] order.contains(
        i,
    ) by {
        let c = catalog_class(skills[i], standing[i]);
        lemma_indices_in_class_complete(skills, standing, c, n, i);
        if c == 0 {
            let k = choose|k: int| 0 <= k < c0.len() && c0[k] == i;
            assert(order[k] == i);
        } else if c == 1 {
            let k = choose|k: int| 0 <= k < c1.len() && c1[k] == i;
            assert(order[c0.len() + k] == i);
        } else {
            let k = choose|k: int| 0 <= k < c2.len() && c2[k] == i;
            assert(order[c0.len() + c1.len() + k] == i);
        }
    }
}

/// The learned skills among the first `cap` in catalog order.
pub open spec fn included_learned_order(
    skills: Seq<LoadedSkill>,
    standing: Seq<Option<SkillStanding>>,
    cap: int,
) -> Seq<int> {
    take_at_most(catalog_order(skills, standing), cap).filter(
        |i: int| skills[i].scope == SkillScope::Learned,
    )
}

/// The learned skills a capped catalog includes are all ones it may offer.
proof fn lemma_included_offered(
    skills: Seq<LoadedSkill>,
    standing: Seq<Option<SkillStanding>>,
    cap: int,
)
    requires
        skills.len() == standing.len(),
        cap >= 0,
    ensures
        forall|k: int|
            0 <= k < included_learned_order(skills, standing, cap).len() ==> {
                let i = #[trigger] included_learned_order(skills, standing, cap)[k];
                0 <= i < skills.len() && skills[i].scope == SkillScope::Learned && may_offer(
                    skills[i],
                    standing[i],
                )
            },
{
    law_catalog_offers_only_live_skills(skills, standing);
    let order = catalog_order(skills, standing);
    let t = take_at_most(order, cap);
    let pred = |i: int| skills[i].scope == SkillScope::Learned;
    let f = t.filter(pred);
    assert(f == included_learned_order(skills, standing, cap));
    assert(t.len() <= order.len());
    assert forall|q: int| 0 <= q < t.len() implies t[q] == order[q] by {
        if order.len() > cap {
            assert(t == order.take(cap));
        }
    }
    assert forall|k: int| 0 <= k < f.len() implies {
        let i = #[trigger] f[k];
        0 <= i < skills.len() && skills[i].scope == SkillScope::Learned && may_offer(
            skills[i],
            standing[i],
        )
    } by {
        let i = f[k];
        t.lemma_filter_pred(pred, k);
        assert(pred(i));
        assert(f.contains(i));
        t.lemma_filter_contains_rev(pred, i);
        assert(t.contains(i));
        let q = choose|q: int| 0 <= q < t.len() && t[q] == i;
        assert(order[q] == i);
        assert(0 <= i < skills.len() && may_offer(skills[i], standing[i]));
    }
}

/// In the catalog, every installed skill comes before every learned one.
pub proof fn law_catalog_installed_first(
    skills: Seq<LoadedSkill>,
    standing: Seq<Option<SkillStanding>>,
)
    requires
        skills.len() == standing.len(),
    ensures
        forall|p: int, q: int|
            0 <= p < catalog_order(skills, standing).len() && 0 <= q < catalog_order(
                skills,
                standing,
            ).len() && skills[#[trigger] catalog_order(skills, standing)[p]].scope
                == SkillScope::Learned && skills[#[trigger] catalog_order(skills, standing)[q]].scope
                == SkillScope::Installed ==> q < p,
{
    let n = skills.len() as int;
    let c0 = indices_in_class(skills, standing, 0, n);
    let c1 = indices_in_class(skills, standing, 1, n);
    let c2 = indices_in_class(skills, standing, 2, n);
    lemma_indices_in_class(skills, standing, 0, n);
    lemma_indices_in_class(skills, standing, 1, n);
    lemma_indices_in_class(skills, standing, 2, n);
    let order = catalog_order(skills, standing);
    assert(order == c0 + c1 + c2);
    assert forall|p: int| 0 <= p < order.len() implies (skills[#[trigger] order[p]].scope
        == SkillScope::Installed <==> p < c0.len()) by {
        if p < c0.len() {
            assert(order[p] == c0[p]);
        } else if p < c0.len() + c1.len() {
            assert(order[p] == c1[p - c0.len()]);
        } else {
            assert(order[p] == c2[p - c0.len() - c1.len()]);
        }
    }
}

/// A text with a frontmatter is, after its leading white space, the
/// opening `---`, the frontmatter, the closing `\n---` and the body:
/// `extract_frontmatter` and `extract_body` split it without loss.
pub proof fn law_frontmatter_body_partition(content: Seq<char>)
    requires
        frontmatter_of(content) is Some,
    ensures
        body_of(content) is Some,
        trim_start(content) == "---"@ + frontmatter_of(content)->0 + "\n---"@ + body_of(content)->0,
{
    reveal_strlit("---");
    reveal_strlit("\n---");
    let t = trim_start(content);
    let rest = t.skip(3);
    let end = find_first(rest, "\n---"@)->0;
    crate::text::lemma_find_first_occurs(rest, "\n---"@);
    assert(t.subrange(0, 3) == "---"@);
    assert(t =~= "---"@ + rest.take(end) + "\n---"@ + rest.skip(end + 4));
}

} // verus!
