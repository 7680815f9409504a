//! Finding the skills of a cloned repository: where to look, which
//! directories to skip, how a SKILL.md becomes a skill, and the rule that
//! the first skill of each name wins. Walking the directories and reading
//! the files happens outside the library.

use vstd::prelude::*;

use crate::frontmatter::{
    extract_frontmatter, frontmatter_fields, frontmatter_of, opt_view, parse_frontmatter,
    SkillFrontmatter,
};
use crate::paths::{join, join_spec};
use crate::skills_load::{first_occurrence_indices, first_occurrences, take_positions};
use crate::text::{chars_of, push_str, str_is, string_of};

verus! {

/// A skill found in a repository.
#[derive(Debug, Clone)]
pub struct DiscoveredSkill {
    pub name: String,
    pub description: String,
    /// The skill's directory relative to the repository root.
    pub rel_path: String,
    /// The skill's directory.
    pub abs_path: String,
}

/// The directories of a repository searched for skills, relative to its
/// root, in search order (the empty path is the root itself).
pub open spec fn standard_dir_list() -> Seq<Seq<char>> {
    seq![
        ""@,
        "skills"@,
        ".agents/skills"@,
        ".goose/skills"@,
        ".opengoose/skills/installed"@,
        ".opengoose/skills/learned"@,
    ]
}

/// The directories of a repository searched for skills, in order.
pub fn standard_dirs() -> (res: Vec<&'static str>)
    ensures
        res@.map_values(|d: &'static str| d@) == standard_dir_list(),
{
    let res = vec![
        "",
        "skills",
        ".agents/skills",
        ".goose/skills",
        ".opengoose/skills/installed",
        ".opengoose/skills/learned",
    ];
    assert(res@.map_values(|d: &'static str| d@) =~= standard_dir_list());
    res
}

/// The directory searched for `dir`: the repository itself for the empty
/// path, else `dir` under it.
pub open spec fn search_path_spec(repo: Seq<char>, dir: Seq<char>) -> Seq<char> {
    if dir.len() == 0 {
        repo
    } else {
        join_spec(repo, dir)
    }
}

/// The directory searched for the standard directory `dir`.
pub fn search_path(repo: &str, dir: &str) -> (res: String)
    ensures
        res@ == search_path_spec(repo@, dir@),
{
    if dir.unicode_len() == 0 {
        repo.to_string()
    } else {
        join(repo, dir)
    }
}

/// How deep below a search directory the walk goes.
pub const MAX_SCAN_DEPTH: usize = 5;

/// Whether the walk looks into a directory at this depth.
pub fn within_scan_depth(depth: usize) -> (res: bool)
    ensures
        res == (depth <= MAX_SCAN_DEPTH),
{
    depth <= MAX_SCAN_DEPTH
}

/// Directories the walk never enters: hidden ones and build or package
/// directories.
pub open spec fn skipped_dir(name: Seq<char>) -> bool {
    (name.len() > 0 && name[0] == '.') || name == "node_modules"@ || name == "target"@ || name
        == "__pycache__"@
}

/// Whether the walk skips a directory with this name.
pub fn skip_dir(name: &str) -> (res: bool)
    ensures
        res == skipped_dir(name@),
{
    let cs = chars_of(name);
    (cs.len() > 0 && cs[0] == '.') || str_is(name, "node_modules") || str_is(name, "target")
        || str_is(name, "__pycache__")
}

/// The skill a SKILL.md describes, from its frontmatter fields: it needs a
/// non-empty description; an internal skill is left out unless internal
/// skills are asked for; the name defaults to the directory's, then to
/// `unnamed`.
pub open spec fn skill_of(
    fields: Option<(Option<Seq<char>>, Option<Seq<char>>, bool)>,
    dir_name: Option<Seq<char>>,
    install_internal: bool,
) -> Option<(Seq<char>, Seq<char>)> {
    match fields {
        None => None,
        Some(f) => match f.1 {
            None => None,
            Some(d) => if d.len() == 0 || (f.2 && !install_internal) {
                None
            } else {
                let name = match f.0 {
                    Some(n) => n,
                    None => match dir_name {
                        Some(dn) => dn,
                        None => "unnamed"@,
                    },
                };
                Some((name, d))
            },
        },
    }
}

/// The `name` field of a SKILL.md text's frontmatter, if it has one.
pub open spec fn declared_name(content: Seq<char>) -> Option<Seq<char>> {
    match frontmatter_of(content) {
        Some(y) => match frontmatter_fields(y) {
            Some(f) => f.0,
            None => None,
        },
        None => None,
    }
}

/// A skill goes by the name its frontmatter declares, whatever its
/// directory is called; the directory's name is used only when the
/// frontmatter declares none.
pub proof fn law_declared_name_wins(
    content: Seq<char>,
    dir_name: Option<Seq<char>>,
    install_internal: bool,
)
    ensures
        ({
            let fields = match frontmatter_of(content) {
                Some(y) => frontmatter_fields(y),
                None => None,
            };
            skill_of(fields, dir_name, install_internal) matches Some((name, _)) ==> match declared_name(
                content,
            ) {
                Some(n) => name == n,
                None => dir_name matches Some(d) ==> name == d,
            }
        }),
{
}

/// The skill a SKILL.md text describes, with `dir_name` the name of its
/// directory, `rel_path` and `abs_path` where that directory is, and
/// `install_internal` whether internal skills are wanted.
pub fn parse_skill_md(
    content: &str,
    dir_name: Option<&str>,
    rel_path: &str,
    abs_path: &str,
    install_internal: bool,
) -> (res: Option<DiscoveredSkill>)
    ensures
        ({
            let fields = match frontmatter_of(content@) {
                Some(y) => frontmatter_fields(y),
                None => None,
            };
            let dn = match dir_name {
                Some(d) => Some(d@),
                None => None,
            };
            match res {
                Some(s) => skill_of(fields, dn, install_internal) == Some((s.name@, s.description@))
                    && s.rel_path@ == rel_path@ && s.abs_path@ == abs_path@,
                None => skill_of(fields, dn, install_internal) is None,
            }
        }),
        // The declared name wins over the directory's.
        res matches Some(s) ==> match declared_name(content@) {
            Some(n) => s.name@ == n,
            None => dir_name matches Some(d) ==> s.name@ == d@,
        },
{
    let yaml = match extract_frontmatter(content) {
        Some(y) => y,
        None => return None,
    };
    let fm = match parse_frontmatter(yaml.as_str()) {
        Some(f) => f,
        None => return None,
    };
    let description = match fm.description {
        Some(d) => d,
        None => return None,
    };
    if description.unicode_len() == 0 || (fm.internal && !install_internal) {
        return None;
    }
    let name = match fm.name {
        Some(n) => n,
        None => match dir_name {
            Some(d) => d.to_string(),
            None => "unnamed".to_string(),
        },
    };
    proof {
        law_declared_name_wins(
            content@,
            match dir_name {
                Some(d) => Some(d@),
                None => None,
            },
            install_internal,
        );
    }
    Some(
        DiscoveredSkill {
            name,
            description,
            rel_path: rel_path.to_string(),
            abs_path: abs_path.to_string(),
        },
    )
}

/// The warning printed when a skill's name differs from its directory's.
pub open spec fn mismatch_text(name: Seq<char>, dir: Seq<char>) -> Seq<char> {
    "warning: skill name '"@ + name + "' doesn't match directory '"@ + dir + "'"@
}

/// The warning for a skill whose name is not that of its (non-empty)
/// directory, if there is one.
pub fn name_mismatch_warning(name: &str, dir_name: Option<&str>) -> (res: Option<String>)
    ensures
        match dir_name {
            Some(d) => if d@ != name@ && d@.len() > 0 {
                res matches Some(w) && w@ == mismatch_text(name@, d@)
            } else {
                res is None
            },
            None => res is None,
        },
{
    match dir_name {
        Some(d) => {
            if !str_is(d, name) && d.unicode_len() > 0 {
                let mut out: Vec<char> = Vec::new();
                push_str(&mut out, "warning: skill name '");
                push_str(&mut out, name);
                push_str(&mut out, "' doesn't match directory '");
                push_str(&mut out, d);
                push_str(&mut out, "'");
                proof {
                    assert(out@ =~= mismatch_text(name@, d@));
                }
                Some(string_of(&out))
            } else {
                None
            }
        },
        None => None,
    }
}

/// The names of discovered skills.
pub open spec fn discovered_names(v: Seq<DiscoveredSkill>) -> Seq<Seq<char>> {
    v.map_values(|s: DiscoveredSkill| s.name@)
}

/// The skills of a repository from what the walk found, in walk order:
/// the first skill of each name is kept, later ones are dropped.
pub fn discover_skills(found: Vec<DiscoveredSkill>) -> (res: Vec<DiscoveredSkill>)
    ensures
        res@.len() == first_occurrences(discovered_names(found@)).len(),
        forall|k: int|
            0 <= k < res@.len() ==> #[trigger] res@[k] == found@[first_occurrences(
                discovered_names(found@),
            )[k]],
{
    let mut names: Vec<String> = Vec::new();
    let mut i: usize = 0;
    while i < found.len()
        invariant
            i <= found@.len(),
            names@.len() == i,
            forall|k: int| 0 <= k < i ==> #[trigger] names@[k]@ == found@[k].name@,
        decreases found@.len() - i,
    {
        names.push(found[i].name.clone());
        i = i + 1;
    }
    assert(names@.map_values(|s: String| s@) =~= discovered_names(found@));
    let keep = first_occurrence_indices(&names);
    let ghost fo = first_occurrences(discovered_names(found@));
    proof {
        crate::skills_load::lemma_first_occurrences_bounds(discovered_names(found@));
        assert forall|m: int| 0 <= m < keep@.len() implies #[trigger] keep@[m] < found@.len() by {
            assert(keep@.map_values(|j: usize| j as int)[m] == keep@[m] as int);
        }
        assert forall|m: int, n: int| 0 <= m < n < keep@.len() implies keep@[m] < keep@[n] by {
            assert(keep@.map_values(|j: usize| j as int)[m] == keep@[m] as int);
            assert(keep@.map_values(|j: usize| j as int)[n] == keep@[n] as int);
        }
    }
    let ghost orig = found@;
    let out = take_positions(found, &keep);
    proof {
        assert forall|m: int| 0 <= m < out@.len() implies #[trigger] out@[m] == orig[fo[m]] by {
            assert(keep@.map_values(|j: usize| j as int)[m] == keep@[m] as int);
        }
    }
    out
}

// ---------------------------------------------------------------------------
// Choosing what to install
// ---------------------------------------------------------------------------

/// Which of the discovered skills to install.
pub enum SkillSelection {
    /// All of them.
    All,
    /// The one at this position.
    One(usize),
    /// The named skill is not there; holds the error message.
    Missing(String),
    /// Let the user pick from these lines (`name — description`).
    Prompt(Vec<String>),
}

/// The names of `skills` joined with `, `.
pub open spec fn joined_names(skills: Seq<DiscoveredSkill>) -> Seq<char>
    decreases skills.len(),
{
    if skills.len() == 0 {
        Seq::empty()
    } else if skills.len() == 1 {
        skills[0].name@
    } else {
        joined_names(skills.drop_last()) + ", "@ + skills.last().name@
    }
}

/// The message for a requested skill that was not discovered.
pub open spec fn missing_skill_text(name: Seq<char>, skills: Seq<DiscoveredSkill>) -> Seq<char> {
    "Skill '"@ + name + "' not found. Available: "@ + joined_names(skills)
}

/// The line offered for a skill in the picker.
pub open spec fn prompt_line_text(s: DiscoveredSkill) -> Seq<char> {
    s.name@ + " \u{2014} "@ + s.description@
}

/// The position of the first skill named `name`.
pub open spec fn first_discovered(skills: Seq<DiscoveredSkill>, name: Seq<char>) -> Option<int> {
    if exists|i: int| 0 <= i < skills.len() && #[trigger] skills[i].name@ == name {
        Some(
            choose|i: int|
                0 <= i < skills.len() && #[trigger] skills[i].name@ == name && forall|j: int|
                    0 <= j < i ==> skills[j].name@ != name,
        )
    } else {
        None
    }
}

fn names_line(skills: &[DiscoveredSkill]) -> (res: Vec<char>)
    ensures
        res@ == joined_names(skills@),
{
    let mut out: Vec<char> = Vec::new();
    let mut i: usize = 0;
    while i < skills.len()
        invariant
            i <= skills@.len(),
            out@ == joined_names(skills@.take(i as int)),
        decreases skills@.len() - i,
    {
        proof {
            assert(skills@.take(i + 1).drop_last() =~= skills@.take(i as int));
            assert(skills@.take(i + 1).last() == skills@[i as int]);
        }
        if i > 0 {
            push_str(&mut out, ", ");
        }
        push_str(&mut out, skills[i].name.as_str());
        proof {
            if i == 0 {
                assert(skills@.take(1)[0] == skills@[0]);
                assert(out@ =~= joined_names(skills@.take(1)));
            } else {
                assert(out@ =~= joined_names(skills@.take(i + 1)));
            }
        }
        i = i + 1;
    }
    assert(skills@.take(skills@.len() as int) =~= skills@);
    out
}

/// Decides which discovered skills to install: all of them when asked,
/// the named one when a name is given (an error listing the available
/// names when it is missing), else the user picks.
pub fn select_skills(skills: &[DiscoveredSkill], all: bool, filter: Option<&str>) -> (res:
    SkillSelection)
    ensures
        all ==> res is All,
        !all && filter is Some ==> match first_discovered(skills@, filter->0@) {
            Some(i) => (res matches SkillSelection::One(j) && j == i && j < skills@.len()),
            None => (res matches SkillSelection::Missing(m) && m@ == missing_skill_text(
                filter->0@,
                skills@,
            )),
        },
        !all && filter is None ==> (res matches SkillSelection::Prompt(lines) && lines@.len()
            == skills@.len() && forall|k: int|
            0 <= k < lines@.len() ==> #[trigger] lines@[k]@ == prompt_line_text(skills@[k])),
{
    if all {
        return SkillSelection::All;
    }
    match filter {
        Some(name) => {
            let mut i: usize = 0;
            while i < skills.len()
                invariant
                    !all,
                    filter == Some(name),
                    i <= skills@.len(),
                    forall|j: int| 0 <= j < i ==> #[trigger] skills@[j].name@ != name@,
                decreases skills@.len() - i,
            {
                if str_is(skills[i].name.as_str(), name) {
                    proof {
                        let w = choose|w: int|
                            0 <= w < skills@.len() && #[trigger] skills@[w].name@ == name@
                                && forall|j: int| 0 <= j < w ==> skills@[j].name@ != name@;
                        assert(skills@[i as int].name@ == name@);
                        if w < i {
                            assert(skills@[w].name@ != name@);
                        } else if w > i {
                            assert(skills@[i as int].name@ != name@);
                        }
                    }
                    return SkillSelection::One(i);
                }
                i = i + 1;
            }
            let names = names_line(skills);
            let mut out: Vec<char> = Vec::new();
            push_str(&mut out, "Skill '");
            push_str(&mut out, name);
            push_str(&mut out, "' not found. Available: ");
            crate::text::push_all(&mut out, &names);
            assert(out@ =~= missing_skill_text(name@, skills@));
            assert(first_discovered(skills@, name@) is None);
            SkillSelection::Missing(string_of(&out))
        },
        None => {
            let mut lines: Vec<String> = Vec::new();
            let mut i: usize = 0;
            while i < skills.len()
                invariant
                    i <= skills@.len(),
                    lines@.len() == i,
                    forall|k: int| 0 <= k < i ==> #[trigger] lines@[k]@ == prompt_line_text(
                        skills@[k],
                    ),
                decreases skills@.len() - i,
            {
                let mut l: Vec<char> = Vec::new();
                push_str(&mut l, skills[i].name.as_str());
                push_str(&mut l, " \u{2014} ");
                push_str(&mut l, skills[i].description.as_str());
                assert(l@ =~= prompt_line_text(skills@[i as int]));
                lines.push(string_of(&l));
                i = i + 1;
            }
            SkillSelection::Prompt(lines)
        },
    }
}

/// Where skills are installed: the global directory under `home`, or the
/// project's.
pub fn install_base(global: bool, home: &str) -> (res: String)
    ensures
        res@ == (if global {
            join_spec(home@, ".opengoose/skills/installed"@)
        } else {
            ".opengoose/skills/installed"@
        }),
{
    if global {
        join(home, ".opengoose/skills/installed")
    } else {
        ".opengoose/skills/installed".to_string()
    }
}

/// The lock entry recorded for a skill installed from `source` at `now`.
pub fn lock_entry_for(
    skill: &DiscoveredSkill,
    source: &crate::source::GitSource,
    now: &str,
) -> (res: crate::lock::SkillLockEntry)
    ensures
        res.source@ == source.owner_repo@,
        res.source_type@ == "github"@,
        res.source_url@ == source.clone_url@,
        (res.skill_path matches Some(p) && p@ == skill.rel_path@),
        res.skill_folder_hash@.len() == 0,
        res.installed_at@ == now@,
        res.updated_at@ == now@,
        res.plugin_name is None,
{
    let src = chars_of(source.owner_repo.as_str());
    let url = chars_of(source.clone_url.as_str());
    let rel = chars_of(skill.rel_path.as_str());
    crate::lock::SkillLockEntry {
        source: string_of(&src),
        source_type: "github".to_string(),
        source_url: string_of(&url),
        skill_path: Some(string_of(&rel)),
        skill_folder_hash: String::new(),
        installed_at: now.to_string(),
        updated_at: now.to_string(),
        plugin_name: None,
    }
}

} // verus!
