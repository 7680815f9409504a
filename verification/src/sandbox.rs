//! Validating a worker's changes in a sandbox: which checks a project
//! gets, and how a failed check is reported. Starting the sandbox and
//! running the commands happen outside the library.

use vstd::prelude::*;

use crate::text::{push_str, string_of};

verus! {

/// The kind of project found in a work directory.
#[derive(Debug, Clone, Copy, PartialEq, Eq, Structural)]
pub enum ProjectKind {
    /// It has a `Cargo.toml`.
    Cargo,
    /// It has a `package.json` (and no `Cargo.toml`).
    Npm,
}

/// The project kind from the files present; none means nothing to check.
pub fn project_kind(has_cargo_toml: bool, has_package_json: bool) -> (res: Option<ProjectKind>)
    ensures
        res == (if has_cargo_toml {
            Some(ProjectKind::Cargo)
        } else if has_package_json {
            Some(ProjectKind::Npm)
        } else {
            None
        }),
{
    if has_cargo_toml {
        Some(ProjectKind::Cargo)
    } else if has_package_json {
        Some(ProjectKind::Npm)
    } else {
        None
    }
}

/// One check run in the sandbox.
pub struct SandboxCheck {
    /// The name used in failure reports, such as `cargo check`.
    pub label: &'static str,
    pub program: &'static str,
    pub args: Vec<&'static str>,
    pub timeout_secs: u64,
}

/// The checks of a project kind, in the order they run (a failure stops
/// the rest): `cargo check` for two minutes then `cargo test` for five, or
/// `npm test` for five.
pub open spec fn check_plan(kind: ProjectKind) -> Seq<(Seq<char>, Seq<char>, Seq<Seq<char>>, u64)> {
    match kind {
        ProjectKind::Cargo => seq![
            ("cargo check"@, "cargo"@, seq!["check"@, "--message-format=short"@], 120u64),
            ("cargo test"@, "cargo"@, seq!["test"@], 300u64),
        ],
        ProjectKind::Npm => seq![
            ("npm test"@, "npm"@, seq!["test"@, "--"@, "--passWithNoTests"@], 300u64),
        ],
    }
}

/// The characters of each argument.
pub open spec fn args_view(args: Seq<&'static str>) -> Seq<Seq<char>> {
    args.map_values(|a: &'static str| a@)
}

/// The view of a check.
pub open spec fn check_view(c: SandboxCheck) -> (Seq<char>, Seq<char>, Seq<Seq<char>>, u64) {
    (c.label@, c.program@, args_view(c.args@), c.timeout_secs)
}

/// The checks a project kind gets.
pub fn checks_for(kind: ProjectKind) -> (res: Vec<SandboxCheck>)
    ensures
        res@.map_values(|c: SandboxCheck| check_view(c)) == check_plan(kind),
{
    let mut res: Vec<SandboxCheck> = Vec::new();
    match kind {
        ProjectKind::Cargo => {
            res.push(
                SandboxCheck {
                    label: "cargo check",
                    program: "cargo",
                    args: vec!["check", "--message-format=short"],
                    timeout_secs: 120,
                },
            );
            res.push(
                SandboxCheck { label: "cargo test", program: "cargo", args: vec!["test"], timeout_secs: 300 },
            );
        },
        ProjectKind::Npm => {
            res.push(
                SandboxCheck {
                    label: "npm test",
                    program: "npm",
                    args: vec!["test", "--", "--passWithNoTests"],
                    timeout_secs: 300,
                },
            );
        },
    }
    proof {
        assert forall|k: int| 0 <= k < res@.len() implies #[trigger] args_view(res@[k].args@)
            =~= check_plan(kind)[k].2 by {}
        assert(res@.map_values(|c: SandboxCheck| check_view(c)) =~= check_plan(kind));
    }
    res
}

/// The report of a failed check: its output, or its error output alone
/// when it printed nothing on stdout.
pub open spec fn failure_report_text(label: Seq<char>, stdout: Seq<char>, stderr: Seq<char>) -> Seq<
    char,
> {
    label + " failed:\n"@ + if stdout.len() == 0 {
        stderr
    } else {
        stdout + "\n"@ + stderr
    }
}

/// What a finished check says: nothing when it exited with status 0, else
/// the report of its failure.
pub fn check_outcome(label: &str, status: i32, stdout: &str, stderr: &str) -> (res: Option<String>)
    ensures
        status == 0 ==> res is None,
        status != 0 ==> (res matches Some(r) && r@ == failure_report_text(label@, stdout@, stderr@)),
{
    if status == 0 {
        return None;
    }
    let mut out: Vec<char> = Vec::new();
    push_str(&mut out, label);
    push_str(&mut out, " failed:\n");
    if stdout.unicode_len() == 0 {
        push_str(&mut out, stderr);
    } else {
        push_str(&mut out, stdout);
        push_str(&mut out, "\n");
        push_str(&mut out, stderr);
    }
    assert(out@ =~= failure_report_text(label@, stdout@, stderr@));
    Some(string_of(&out))
}

} // verus!
