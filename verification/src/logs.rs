//! The `logs` subcommand: reading a retention period such as `7d`, and the
//! human-readable sizes and reports that the command prints.

use vstd::prelude::*;

use crate::text::{
    chars_of, decimal, digit_char, parse_u64, parse_u64_spec, push_decimal,
    push_str, string_of, trim, trim_vec,
};

verus! {

/// What `opengoose logs` is asked to do.
pub enum LogsAction {
    /// List the conversation logs by session.
    List,
    /// Remove the logs older than a retention period (such as `7d`; by default `30d`).
    Clean { older_than: String },
}

/// Why a retention period could not be read.
#[derive(Debug)]
pub enum DurationError {
    /// A period ending in `d` whose number is not a valid count of days.
    InvalidDuration(String),
    /// A period that is neither `<days>d` nor a plain number of days.
    InvalidFormat(String),
}

/// The text of a `DurationError` for a period `s`.
pub open spec fn duration_error_text(e: DurationError) -> Seq<char> {
    match e {
        DurationError::InvalidDuration(s) => "invalid duration: "@ + s@,
        DurationError::InvalidFormat(s) => "invalid duration format: "@ + s@
            + " (expected e.g. 7d or 30d)"@,
    }
}

impl DurationError {
    /// The message shown for this error.
    pub fn message(&self) -> (res: String)
        ensures
            res@ == duration_error_text(*self),
    {
        let mut out: Vec<char> = Vec::new();
        match self {
            DurationError::InvalidDuration(s) => {
                push_str(&mut out, "invalid duration: ");
                push_str(&mut out, s.as_str());
            },
            DurationError::InvalidFormat(s) => {
                push_str(&mut out, "invalid duration format: ");
                push_str(&mut out, s.as_str());
                push_str(&mut out, " (expected e.g. 7d or 30d)");
            },
        }
        proof {
            assert(Seq::<char>::empty() + "invalid duration: "@ =~= "invalid duration: "@);
            assert(Seq::<char>::empty() + "invalid duration format: "@
                =~= "invalid duration format: "@);
        }
        string_of(&out)
    }
}

/// What reading the period `s` gives: the trimmed text, when it ends in `d`,
/// must be a number of days before that `d`; otherwise it must be a plain
/// number of days.
pub open spec fn parse_duration_days_spec(s: Seq<char>) -> Result<u64, Seq<char>> {
    let t = trim(s);
    if t.len() > 0 && t.last() == 'd' {
        match parse_u64_spec(t.drop_last()) {
            Some(n) => Ok(n),
            None => Err("invalid duration: "@ + t),
        }
    } else {
        match parse_u64_spec(t) {
            Some(n) => Ok(n),
            None => Err("invalid duration format: "@ + t + " (expected e.g. 7d or 30d)"@),
        }
    }
}

/// Reads a retention period given in days, such as `7d` or `30`.
pub fn parse_duration_days(s: &str) -> (res: Result<u64, DurationError>)
    ensures
        match res {
            Ok(n) => parse_duration_days_spec(s@) == Ok::<u64, Seq<char>>(n),
            Err(e) => parse_duration_days_spec(s@) == Err::<u64, Seq<char>>(
                duration_error_text(e),
            ),
        },
{
    let all = chars_of(s);
    let t = trim_vec(&all);
    if t.len() > 0 && t[t.len() - 1] == 'd' {
        let num = crate::text::slice_range(&t, 0, t.len() - 1);
        assert(num@ =~= t@.drop_last());
        match parse_u64(&num) {
            Some(n) => Ok(n),
            None => Err(DurationError::InvalidDuration(string_of(&t))),
        }
    } else {
        match parse_u64(&t) {
            Some(n) => Ok(n),
            None => Err(DurationError::InvalidFormat(string_of(&t))),
        }
    }
}

// ---------------------------------------------------------------------------
// Sizes
// ---------------------------------------------------------------------------

/// 2^53: below it every integer is exactly a double.
pub open spec fn pow53() -> nat {
    9007199254740992
}

/// The spacing of the doubles near `n`, found by doubling `u` from one while
/// `n` has more than 53 significant bits at that spacing.
pub open spec fn double_unit_from(n: nat, u: nat) -> nat
    decreases n - u,
{
    if u >= 1 && n >= pow53() * u {
        double_unit_from(n, 2 * u)
    } else {
        u
    }
}

/// `num / den` rounded to the nearest integer, ties to even.
pub open spec fn round_half_even(num: nat, den: nat) -> nat
    recommends
        den > 0,
{
    let q = num / den;
    let r = num % den;
    if 2 * r < den {
        q
    } else if 2 * r > den {
        q + 1
    } else if q % 2 == 0 {
        q
    } else {
        q + 1
    }
}

/// The double nearest to `n` (`n as f64`), as an integer.
pub open spec fn as_double(n: nat) -> nat {
    let u = double_unit_from(n, 1);
    round_half_even(n, u) * u
}

/// A count of tenths written with one decimal: `12.3`.
pub open spec fn one_decimal(tenths: nat) -> Seq<char> {
    decimal(tenths / 10).push('.').push(digit_char(tenths % 10))
}

/// What `format_bytes` prints for `bytes`: bytes below 1 KiB, then KiB, then
/// MiB with one decimal, the value rounded as `{:.1}` rounds the double.
pub open spec fn format_bytes_spec(bytes: nat) -> Seq<char> {
    if bytes < 1024 {
        decimal(bytes) + "B"@
    } else if bytes < 1048576 {
        one_decimal(round_half_even(bytes * 10, 1024)) + "KB"@
    } else {
        one_decimal(round_half_even(as_double(bytes) * 10, 1048576)) + "MB"@
    }
}

fn round_half_even_exec(num: u128, den: u128) -> (res: u128)
    requires
        den > 0,
        num < 0x1_0000_0000_0000_0000_0000_0000_0000,
    ensures
        res == round_half_even(num as nat, den as nat),
        res <= num / den + 1,
{
    let q = num / den;
    let r = num % den;
    if r < den - r {
        q
    } else if r > den - r {
        q + 1
    } else if q % 2 == 0 {
        q
    } else {
        q + 1
    }
}

fn double_unit(n: u64) -> (u: u128)
    ensures
        u == double_unit_from(n as nat, 1),
        1 <= u <= 4096,
{
    let mut u: u128 = 1;
    while (n as u128) >= 9007199254740992u128 * u
        invariant
            1 <= u <= 4096,
            double_unit_from(n as nat, 1) == double_unit_from(n as nat, u as nat),
        decreases 8192 - u,
    {
        assert(u < 2048);
        u = 2 * u;
    }
    u
}

fn as_double_exec(n: u64) -> (res: u128)
    ensures
        res == as_double(n as nat),
        res <= 0x1_0000_0000_0000_2000,
{
    let u = double_unit(n);
    let q = round_half_even_exec(n as u128, u);
    assert(q <= n + 1) by (nonlinear_arith)
        requires
            q <= (n as u128) / u + 1,
            u >= 1,
    ;
    assert(q * u <= n + u) by (nonlinear_arith)
        requires
            q <= (n as u128) / u + 1,
            u >= 1,
    ;
    q * u
}

fn push_one_decimal(out: &mut Vec<char>, tenths: u128)
    requires
        tenths / 10 <= u64::MAX,
    ensures
        final(out)@ == old(out)@ + one_decimal(tenths as nat),
{
    push_decimal(out, (tenths / 10) as u64);
    out.push('.');
    let d = (tenths % 10) as u64;
    out.push(crate::text::digit_exec(d));
    assert(old(out)@ + decimal((tenths / 10) as nat) + seq!['.', digit_char(d as nat)]
        =~= old(out)@ + one_decimal(tenths as nat));
}

/// A size in bytes for people: `512B`, `1.5KB`, `2.0MB`.
pub fn format_bytes(bytes: u64) -> (res: String)
    ensures
        res@ == format_bytes_spec(bytes as nat),
{
    let mut out: Vec<char> = Vec::new();
    if bytes < 1024 {
        push_decimal(&mut out, bytes);
        push_str(&mut out, "B");
    } else if bytes < 1048576 {
        let t = round_half_even_exec((bytes as u128) * 10, 1024);
        push_one_decimal(&mut out, t);
        push_str(&mut out, "KB");
    } else {
        let f = as_double_exec(bytes);
        let t = round_half_even_exec(f * 10, 1048576);
        push_one_decimal(&mut out, t);
        push_str(&mut out, "MB");
    }
    proof {
        assert(Seq::<char>::empty() + decimal(bytes as nat) =~= decimal(bytes as nat));
    }
    string_of(&out)
}

/// What `logs clean` reports: how many logs were older than `days`, and,
/// when the size cap removed more, how many.
pub open spec fn clean_report_spec(days: u64, removed: u64, cap_removed: u64) -> Seq<Seq<char>> {
    let first = "Removed "@ + decimal(removed as nat) + " log(s) older than "@ + decimal(
        days as nat,
    ) + " days."@;
    if cap_removed > 0 {
        seq![
            first,
            "Removed "@ + decimal(cap_removed as nat) + " additional log(s) over 100MB capacity."@,
        ]
    } else {
        seq![first]
    }
}

/// The lines that `logs clean` prints after removing `removed` logs older
/// than `days` days and `cap_removed` more to stay under the size cap.
pub fn clean_report(days: u64, removed: u64, cap_removed: u64) -> (res: Vec<String>)
    ensures
        res@.len() == clean_report_spec(days, removed, cap_removed).len(),
        forall|i: int|
            0 <= i < res@.len() ==> #[trigger] res@[i]@ == clean_report_spec(
                days,
                removed,
                cap_removed,
            )[i],
{
    let mut first: Vec<char> = Vec::new();
    push_str(&mut first, "Removed ");
    push_decimal(&mut first, removed);
    push_str(&mut first, " log(s) older than ");
    push_decimal(&mut first, days);
    push_str(&mut first, " days.");
    let mut res: Vec<String> = Vec::new();
    res.push(string_of(&first));
    if cap_removed > 0 {
        let mut second: Vec<char> = Vec::new();
        push_str(&mut second, "Removed ");
        push_decimal(&mut second, cap_removed);
        push_str(&mut second, " additional log(s) over 100MB capacity.");
        res.push(string_of(&second));
        proof {
            assert(second@ =~= "Removed "@ + decimal(cap_removed as nat)
                + " additional log(s) over 100MB capacity."@);
        }
    }
    proof {
        assert(first@ =~= "Removed "@ + decimal(removed as nat) + " log(s) older than "@
            + decimal(days as nat) + " days."@);
    }
    res
}

} // verus!
