//! The skill lock file: which skills are installed, from where, and when.
//! Reading and writing the file happens outside the library; here are the
//! version check applied to what was read and the edits made to the lock.

use vstd::prelude::*;

use crate::paths::{join, join_spec};
use crate::text::str_is;

verus! {

/// The lock file format this version writes, and the oldest it accepts.
pub const LOCK_VERSION: u64 = 3;

/// How one installed skill is recorded.
#[derive(Debug, Clone)]
pub struct SkillLockEntry {
    pub source: String,
    pub source_type: String,
    pub source_url: String,
    pub skill_path: Option<String>,
    pub skill_folder_hash: String,
    pub installed_at: String,
    pub updated_at: String,
    pub plugin_name: Option<String>,
}

/// The lock file: its version, the entries by skill name, and the other
/// top-level fields of the file, kept as (name, JSON text) so that writing
/// the lock back preserves them.
pub struct SkillLockFile {
    pub version: u64,
    pub skills: Vec<(String, SkillLockEntry)>,
    pub extra: Vec<(String, String)>,
}

/// No two entries share a skill name.
pub open spec fn names_unique(s: Seq<(String, SkillLockEntry)>) -> bool {
    forall|i: int, j: int|
        0 <= i < s.len() && 0 <= j < s.len() && i != j ==> #[trigger] s[i].0@ != #[trigger] s[j].0@
}

/// Some entry is named `k`.
pub open spec fn has_name(s: Seq<(String, SkillLockEntry)>, k: Seq<char>) -> bool {
    exists|i: int| 0 <= i < s.len() && #[trigger] s[i].0@ == k
}

/// The position of the entry named `k`.
pub open spec fn position_of_name(s: Seq<(String, SkillLockEntry)>, k: Seq<char>) -> int {
    choose|i: int| 0 <= i < s.len() && #[trigger] s[i].0@ == k
}

/// The entries as a map from skill name to entry.
pub open spec fn lock_map(s: Seq<(String, SkillLockEntry)>) -> Map<Seq<char>, SkillLockEntry> {
    Map::new(|k: Seq<char>| has_name(s, k), |k: Seq<char>| s[position_of_name(s, k)].1)
}

impl SkillLockFile {
    /// The lock's entries by skill name.
    pub open spec fn entries(&self) -> Map<Seq<char>, SkillLockEntry> {
        lock_map(self.skills@)
    }

    /// The lock is well formed: each skill name has one entry.
    pub open spec fn wf(&self) -> bool {
        names_unique(self.skills@)
    }
}

proof fn lemma_lock_map_at(s: Seq<(String, SkillLockEntry)>, i: int)
    requires
        names_unique(s),
        0 <= i < s.len(),
    ensures
        lock_map(s).contains_key(s[i].0@),
        lock_map(s)[s[i].0@] == s[i].1,
{
    assert(has_name(s, s[i].0@));
    let j = position_of_name(s, s[i].0@);
    assert(s[j].0@ == s[i].0@);
}

/// Where the lock file lives: `skills/.skill-lock.json` under
/// `$XDG_STATE_HOME` when it is set, else `.agents/.skill-lock.json` under
/// the home directory.
pub open spec fn lock_path_text(xdg_state_home: Option<Seq<char>>, home: Seq<char>) -> Seq<char> {
    match xdg_state_home {
        Some(x) => join_spec(join_spec(x, "skills"@), ".skill-lock.json"@),
        None => join_spec(join_spec(home, ".agents"@), ".skill-lock.json"@),
    }
}

/// The lock file's path, from `$XDG_STATE_HOME` (if set) and the home
/// directory.
pub fn lock_path_in(xdg_state_home: Option<&str>, home: &str) -> (res: String)
    ensures
        res@ == lock_path_text(
            match xdg_state_home {
                Some(x) => Some(x@),
                None => None,
            },
            home@,
        ),
{
    match xdg_state_home {
        Some(x) => {
            let dir = join(x, "skills");
            join(dir.as_str(), ".skill-lock.json")
        },
        None => {
            let dir = join(home, ".agents");
            join(dir.as_str(), ".skill-lock.json")
        },
    }
}

/// A lock with no entries, in the current format.
pub fn empty_lock() -> (res: SkillLockFile)
    ensures
        res.version == LOCK_VERSION,
        res.skills@.len() == 0,
        res.extra@.len() == 0,
        res.wf(),
        res.entries() == Map::<Seq<char>, SkillLockEntry>::empty(),
{
    let res = SkillLockFile { version: LOCK_VERSION, skills: Vec::new(), extra: Vec::new() };
    assert(res.entries() =~= Map::<Seq<char>, SkillLockEntry>::empty());
    res
}

/// The lock to work with after reading the file: what was read when it
/// parsed and is of the current format or newer, else an empty lock.
pub fn accept_lock(read: Option<SkillLockFile>) -> (res: SkillLockFile)
    requires
        read matches Some(l) ==> l.wf(),
    ensures
        res.wf(),
        match read {
            Some(l) => if l.version >= LOCK_VERSION {
                res == l
            } else {
                res.version == LOCK_VERSION && res.skills@.len() == 0 && res.extra@.len() == 0
            },
            None => res.version == LOCK_VERSION && res.skills@.len() == 0 && res.extra@.len()
                == 0,
        },
{
    match read {
        Some(l) => {
            if l.version >= LOCK_VERSION {
                l
            } else {
                empty_lock()
            }
        },
        None => empty_lock(),
    }
}

/// The position of the entry named `name`, if any.
fn find_entry(skills: &Vec<(String, SkillLockEntry)>, name: &str) -> (res: Option<usize>)
    requires
        names_unique(skills@),
    ensures
        match res {
            Some(i) => i < skills@.len() && skills@[i as int].0@ == name@,
            None => !has_name(skills@, name@),
        },
{
    let mut i: usize = 0;
    while i < skills.len()
        invariant
            i <= skills@.len(),
            forall|j: int| 0 <= j < i ==> #[trigger] skills@[j].0@ != name@,
        decreases skills@.len() - i,
    {
        if str_is(skills[i].0.as_str(), name) {
            return Some(i);
        }
        i = i + 1;
    }
    None
}

/// The entry recorded for `name`, if any.
pub fn entry_of<'a>(lock: &'a SkillLockFile, name: &str) -> (res: Option<&'a SkillLockEntry>)
    requires
        lock.wf(),
    ensures
        match res {
            Some(e) => lock.entries().contains_key(name@) && lock.entries()[name@] == *e,
            None => !lock.entries().contains_key(name@),
        },
{
    match find_entry(&lock.skills, name) {
        Some(i) => {
            proof {
                lemma_lock_map_at(lock.skills@, i as int);
            }
            Some(&lock.skills[i].1)
        },
        None => None,
    }
}

/// Records `entry` for the skill `name`, replacing any earlier entry.
pub fn add_entry(lock: &mut SkillLockFile, name: &str, entry: SkillLockEntry)
    requires
        old(lock).wf(),
    ensures
        final(lock).wf(),
        final(lock).entries() == old(lock).entries().insert(name@, entry),
        final(lock).version == old(lock).version,
        final(lock).extra@ == old(lock).extra@,
{
    let ghost before = lock.skills@;
    match find_entry(&lock.skills, name) {
        Some(i) => {
            lock.skills.set(i, (name.to_string(), entry));
            let ghost after = lock.skills@;
            assert(after == before.update(i as int, (after[i as int].0, entry)));
            proof {
                assert forall|a: int, b: int|
                    0 <= a < after.len() && 0 <= b < after.len() && a != b implies #[trigger] after[a].0@
                    != #[trigger] after[b].0@ by {
                    assert(before[a].0@ != before[b].0@);
                }
                assert forall|k: Seq<char>| #[trigger] has_name(after, k) == has_name(before, k) by {
                    if has_name(after, k) {
                        let j = choose|j: int| 0 <= j < after.len() && #[trigger] after[j].0@ == k;
                        assert(before[j].0@ == k);
                    }
                    if has_name(before, k) {
                        let j = choose|j: int| 0 <= j < before.len() && #[trigger] before[j].0@ == k;
                        assert(after[j].0@ == k);
                    }
                }
                assert forall|k: Seq<char>| #[trigger] lock_map(after).contains_key(k) implies lock_map(
                    after,
                )[k] == lock_map(before).insert(name@, entry)[k] by {
                    let j = position_of_name(after, k);
                    assert(0 <= j < after.len() && after[j].0@ == k);
                    if k == name@ {
                        lemma_lock_map_at(after, i as int);
                    } else {
                        lemma_lock_map_at(after, j);
                        assert(j != i);
                        lemma_lock_map_at(before, j);
                    }
                }
                assert(lock_map(after) =~= lock_map(before).insert(name@, entry));
            }
        },
        None => {
            lock.skills.push((name.to_string(), entry));
            let ghost after = lock.skills@;
            let ghost last = before.len() as int;
            assert(after == before.push((after[last].0, entry)));
            proof {
                assert forall|a: int, b: int|
                    0 <= a < after.len() && 0 <= b < after.len() && a != b implies #[trigger] after[a].0@
                    != #[trigger] after[b].0@ by {
                    if a == last {
                        assert(before[b].0@ != name@);
                    } else if b == last {
                        assert(before[a].0@ != name@);
                    } else {
                        assert(before[a].0@ != before[b].0@);
                    }
                }
                assert forall|k: Seq<char>| #[trigger] has_name(after, k) == (has_name(before, k)
                    || k == name@) by {
                    if has_name(after, k) {
                        let j = choose|j: int| 0 <= j < after.len() && #[trigger] after[j].0@ == k;
                        if j < last {
                            assert(before[j].0@ == k);
                        }
                    }
                    if has_name(before, k) {
                        let j = choose|j: int| 0 <= j < before.len() && #[trigger] before[j].0@ == k;
                        assert(after[j].0@ == k);
                    }
                    if k == name@ {
                        assert(after[last].0@ == k);
                    }
                }
                assert forall|k: Seq<char>| #[trigger] lock_map(after).contains_key(k) implies lock_map(
                    after,
                )[k] == lock_map(before).insert(name@, entry)[k] by {
                    let j = position_of_name(after, k);
                    assert(0 <= j < after.len() && after[j].0@ == k);
                    if k == name@ {
                        lemma_lock_map_at(after, last);
                    } else {
                        lemma_lock_map_at(after, j);
                        assert(j != last);
                        lemma_lock_map_at(before, j);
                    }
                }
                assert(lock_map(after) =~= lock_map(before).insert(name@, entry));
            }
        },
    }
}

/// Removes the entry of the skill `name`; tells whether there was one.
pub fn remove_entry(lock: &mut SkillLockFile, name: &str) -> (removed: bool)
    requires
        old(lock).wf(),
    ensures
        final(lock).wf(),
        removed == old(lock).entries().contains_key(name@),
        final(lock).entries() == old(lock).entries().remove(name@),
        final(lock).version == old(lock).version,
        final(lock).extra@ == old(lock).extra@,
{
    let ghost before = lock.skills@;
    match find_entry(&lock.skills, name) {
        Some(i) => {
            lock.skills.remove(i);
            let ghost after = lock.skills@;
            assert(after == before.remove(i as int));
            proof {
                assert(has_name(before, name@)) by {
                    assert(before[i as int].0@ == name@);
                }
                assert forall|a: int, b: int|
                    0 <= a < after.len() && 0 <= b < after.len() && a != b implies #[trigger] after[a].0@
                    != #[trigger] after[b].0@ by {
                    let a0 = if a < i { a } else { a + 1 };
                    let b0 = if b < i { b } else { b + 1 };
                    assert(after[a] == before[a0]);
                    assert(after[b] == before[b0]);
                }
                assert forall|k: Seq<char>| #[trigger] has_name(after, k) == (has_name(before, k)
                    && k != name@) by {
                    if has_name(after, k) {
                        let j = choose|j: int| 0 <= j < after.len() && #[trigger] after[j].0@ == k;
                        let j0 = if j < i { j } else { j + 1 };
                        assert(after[j] == before[j0]);
                        assert(before[j0].0@ == k);
                        assert(j0 != i);
                    }
                    if has_name(before, k) && k != name@ {
                        let j = choose|j: int| 0 <= j < before.len() && #[trigger] before[j].0@ == k;
                        assert(j != i);
                        let j1 = if j < i { j } else { j - 1 };
                        assert(after[j1] == before[j]);
                        assert(after[j1].0@ == k);
                    }
                }
                assert forall|k: Seq<char>| #[trigger] lock_map(after).contains_key(k) implies lock_map(
                    after,
                )[k] == lock_map(before).remove(name@)[k] by {
                    let j = position_of_name(after, k);
                    assert(0 <= j < after.len() && after[j].0@ == k);
                    let j0 = if j < i { j } else { j + 1 };
                    assert(after[j] == before[j0]);
                    lemma_lock_map_at(after, j);
                    lemma_lock_map_at(before, j0);
                }
                assert(lock_map(after) =~= lock_map(before).remove(name@));
            }
            true
        },
        None => {
            assert(lock_map(before) =~= lock_map(before).remove(name@));
            false
        },
    }
}

/// Removing a skill right after recording it finds the entry, and leaves
/// the lock as it was without that skill.
pub proof fn law_add_then_remove(
    before: Map<Seq<char>, SkillLockEntry>,
    name: Seq<char>,
    entry: SkillLockEntry,
)
    ensures
        before.insert(name, entry).contains_key(name),
        before.insert(name, entry).remove(name) == before.remove(name),
{
    assert(before.insert(name, entry).remove(name) =~= before.remove(name));
}

} // verus!
