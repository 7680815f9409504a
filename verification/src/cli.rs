//! The command line: the subcommands that carry no numbers from the user,
//! the run mode each command starts in, the board database location, and
//! what the `rigs` subcommand and headless runs print. Parsing arguments
//! and talking to the board happen outside the library.

use vstd::prelude::*;

use crate::paths::{join, join_spec};
use crate::text::{int_decimal, push_i64, push_str, string_of};
use crate::tui_app::Status;

verus! {

/// What `opengoose rigs` is asked to do (no action lists the rigs).
pub enum RigsAction {
    /// Register an AI rig.
    Add { id: String, recipe: String, tags: Vec<String> },
    /// Remove a rig.
    Remove { id: String },
    /// Show a rig's trust level.
    Trust { id: String },
}

/// What `opengoose skills` is asked to do.
pub enum SkillsAction {
    /// Install skills from a Git repository.
    Add { source: String, all: bool, skill: Option<String>, global: bool },
    /// List installed skills.
    List { global: bool, archived: bool },
    /// Remove an installed skill.
    Remove { name: String, global: bool },
    /// Update all installed skills.
    Update,
    /// Promote a learned skill to project or global scope.
    Promote { name: String, to: String, from_rig: Option<String>, force: bool },
}

/// The subcommand given, if any.
#[derive(Debug, Clone, Copy, PartialEq, Eq, Structural)]
pub enum CommandKind {
    Run,
    Board,
    Rigs,
    Skills,
    Logs,
}

/// How the program logs, by what it runs.
#[derive(Debug, Clone, Copy, PartialEq, Eq, Structural)]
pub enum RunMode {
    /// The interactive UI: a log file and the Logs tab, nothing on stderr.
    Tui,
    /// A headless `run`: stderr and a log file.
    Headless,
    /// Any other subcommand: stderr only.
    CliSubcommand,
}

/// The run mode of a command line: the UI without a subcommand, headless
/// for `run`, plain otherwise.
pub fn run_mode(command: Option<CommandKind>) -> (res: RunMode)
    ensures
        res == (match command {
            None => RunMode::Tui,
            Some(CommandKind::Run) => RunMode::Headless,
            Some(_) => RunMode::CliSubcommand,
        }),
{
    match command {
        None => RunMode::Tui,
        Some(CommandKind::Run) => RunMode::Headless,
        Some(_) => RunMode::CliSubcommand,
    }
}

/// The board database URL under a home directory.
pub open spec fn db_url_text(home: Seq<char>) -> Seq<char> {
    "sqlite://"@ + join_spec(join_spec(home, ".opengoose"@), "board.db"@) + "?mode=rwc"@
}

/// The board database URL under the home directory `home`.
pub fn db_url(home: &str) -> (res: String)
    ensures
        res@ == db_url_text(home@),
{
    let dir = join(home, ".opengoose");
    let file = join(dir.as_str(), "board.db");
    let mut out: Vec<char> = Vec::new();
    push_str(&mut out, "sqlite://");
    push_str(&mut out, file.as_str());
    push_str(&mut out, "?mode=rwc");
    assert(out@ =~= db_url_text(home@));
    string_of(&out)
}

/// Goose's own skills directory: `goose/skills` under the configuration
/// directory (`$XDG_CONFIG_HOME`, else `.config` under the home directory).
pub open spec fn goose_skills_dir_text(xdg_config_home: Option<Seq<char>>, home: Seq<char>) -> Seq<
    char,
> {
    let config = match xdg_config_home {
        Some(x) => x,
        None => join_spec(home, ".config"@),
    };
    join_spec(join_spec(config, "goose"@), "skills"@)
}

/// Goose's own skills directory.
pub fn global_skills_dir(xdg_config_home: Option<&str>, home: &str) -> (res: String)
    ensures
        res@ == goose_skills_dir_text(
            match xdg_config_home {
                Some(x) => Some(x@),
                None => None,
            },
            home@,
        ),
{
    let config = match xdg_config_home {
        Some(x) => x.to_string(),
        None => join(home, ".config"),
    };
    let goose = join(config.as_str(), "goose");
    join(goose.as_str(), "skills")
}

// ---------------------------------------------------------------------------
// `opengoose rigs`
// ---------------------------------------------------------------------------

/// A listed rig: id, type, recipe (`-` when none) and tags (`[]` when none).
pub open spec fn rig_list_line_text(
    id: Seq<char>,
    rig_type: Seq<char>,
    recipe: Option<Seq<char>>,
    tags: Option<Seq<char>>,
) -> Seq<char> {
    "  "@ + id + "  "@ + rig_type + "  recipe:"@ + match recipe {
        Some(r) => r,
        None => "-"@,
    } + "  tags:"@ + match tags {
        Some(t) => t,
        None => "[]"@,
    }
}

/// The line of a listed rig.
pub fn rig_list_line(id: &str, rig_type: &str, recipe: Option<&str>, tags: Option<&str>) -> (res:
    String)
    ensures
        res@ == rig_list_line_text(
            id@,
            rig_type@,
            match recipe {
                Some(r) => Some(r@),
                None => None,
            },
            match tags {
                Some(t) => Some(t@),
                None => None,
            },
        ),
{
    let mut out: Vec<char> = Vec::new();
    push_str(&mut out, "  ");
    push_str(&mut out, id);
    push_str(&mut out, "  ");
    push_str(&mut out, rig_type);
    push_str(&mut out, "  recipe:");
    match recipe {
        Some(r) => push_str(&mut out, r),
        None => push_str(&mut out, "-"),
    }
    push_str(&mut out, "  tags:");
    match tags {
        Some(t) => push_str(&mut out, t),
        None => push_str(&mut out, "[]"),
    }
    let ghost want = rig_list_line_text(
        id@,
        rig_type@,
        match recipe {
            Some(r) => Some(r@),
            None => None,
        },
        match tags {
            Some(t) => Some(t@),
            None => None,
        },
    );
    assert(out@ =~= want);
    string_of(&out)
}

/// The confirmation of a registered rig.
pub fn registered_line(id: &str, recipe: &str) -> (res: String)
    ensures
        res@ == "Registered "@ + id@ + " (recipe: "@ + recipe@ + ")"@,
{
    let mut out: Vec<char> = Vec::new();
    push_str(&mut out, "Registered ");
    push_str(&mut out, id);
    push_str(&mut out, " (recipe: ");
    push_str(&mut out, recipe);
    push_str(&mut out, ")");
    assert(out@ =~= "Registered "@ + id@ + " (recipe: "@ + recipe@ + ")"@);
    string_of(&out)
}

/// The tags a rig is registered with: none when the list is empty.
pub fn rig_tags(tags: &Vec<String>) -> (res: Option<&Vec<String>>)
    ensures
        match res {
            Some(t) => tags@.len() > 0 && t == tags,
            None => tags@.len() == 0,
        },
{
    if tags.len() == 0 {
        None
    } else {
        Some(tags)
    }
}

// ---------------------------------------------------------------------------
// Headless runs
// ---------------------------------------------------------------------------

/// The line printed after posting the task.
pub open spec fn posted_line_text(id: i64, title: Seq<char>) -> Seq<char> {
    "Posted #"@ + int_decimal(id as int) + ": \""@ + title + "\" \u{2014} waiting for Worker..."@
}

/// The line printed after posting the task.
pub fn posted_line(id: i64, title: &str) -> (res: String)
    ensures
        res@ == posted_line_text(id, title@),
{
    let mut out: Vec<char> = Vec::new();
    push_str(&mut out, "Posted #");
    push_i64(&mut out, id);
    push_str(&mut out, ": \"");
    push_str(&mut out, title);
    push_str(&mut out, "\" \u{2014} waiting for Worker...");
    assert(out@ =~= posted_line_text(id, title@));
    string_of(&out)
}

/// Where a headless run stands after looking at its work item.
pub enum HeadlessStep {
    /// The worker finished: print this line and stop.
    Completed(String),
    /// The run failed with this error.
    Failed(String),
    /// Wait for the next board change.
    Waiting,
}

/// The text of `#id` followed by `rest`.
pub open spec fn item_text(prefix: Seq<char>, id: i64, rest: Seq<char>) -> Seq<char> {
    prefix + int_decimal(id as int) + rest
}

fn item_message(prefix: &str, id: i64, rest: &str) -> (res: String)
    ensures
        res@ == item_text(prefix@, id, rest@),
{
    let mut out: Vec<char> = Vec::new();
    push_str(&mut out, prefix);
    push_i64(&mut out, id);
    push_str(&mut out, rest);
    string_of(&out)
}

/// What a headless run does after reading its work item's status (`None`
/// when the item is gone): done completes the run, abandoned or deleted
/// fails it, anything else waits.
pub fn headless_step(id: i64, status: Option<Status>) -> (res: HeadlessStep)
    ensures
        match status {
            Some(Status::Done) => res matches HeadlessStep::Completed(l) && l@ == item_text(
                "\u{2713} #"@,
                id,
                " completed"@,
            ),
            Some(Status::Abandoned) => res matches HeadlessStep::Failed(e) && e@ == item_text(
                "work item #"@,
                id,
                " was abandoned"@,
            ),
            None => res matches HeadlessStep::Failed(e) && e@ == item_text(
                "work item #"@,
                id,
                " was deleted"@,
            ),
            Some(_) => res is Waiting,
        },
{
    match status {
        Some(Status::Done) => HeadlessStep::Completed(item_message("\u{2713} #", id, " completed")),
        Some(Status::Abandoned) => HeadlessStep::Failed(
            item_message("work item #", id, " was abandoned"),
        ),
        None => HeadlessStep::Failed(item_message("work item #", id, " was deleted")),
        Some(_) => HeadlessStep::Waiting,
    }
}

/// The error of a headless run that waited too long.
pub fn headless_timeout(id: i64) -> (res: String)
    ensures
        res@ == item_text("timed out waiting for work item #"@, id, " (10 min)"@),
{
    item_message("timed out waiting for work item #", id, " (10 min)")
}

} // verus!
