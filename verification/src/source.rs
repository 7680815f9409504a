//! Where skills are installed from: reading a Git source given as
//! `owner/repo` or as an `https://` URL.

use vstd::prelude::*;

use crate::text::{
    chars_of, concat, first_pos, has_prefix, has_suffix, position_of, push_all, push_str,
    slice_range, starts_with_str, ends_with_str, string_of, trim, trim_char_end, trim_char_end_vec,
    trim_suffix_all, trim_suffix_all_vec, trim_vec, contains_char, trim_start, trim_end, is_ws,
};

verus! {

/// A parsed Git source.
pub struct GitSource {
    /// Normalized `owner/repo`.
    pub owner_repo: String,
    /// Full `git clone` URL.
    pub clone_url: String,
}

/// Why a source could not be read.
#[derive(Debug)]
pub enum SourceError {
    /// Neither `owner/repo` nor an `http(s)://` URL; holds the input as given.
    Invalid(String),
}

impl SourceError {
    /// The message shown for this error.
    pub fn message(&self) -> (res: String)
        ensures
            match self {
                SourceError::Invalid(s) => res@ == "Invalid source: "@ + s@
                    + ". Use owner/repo or a full HTTPS URL."@,
            },
    {
        match self {
            SourceError::Invalid(s) => {
                let mut out: Vec<char> = Vec::new();
                push_str(&mut out, "Invalid source: ");
                push_str(&mut out, s.as_str());
                push_str(&mut out, ". Use owner/repo or a full HTTPS URL.");
                assert(out@ =~= "Invalid source: "@ + s@ + ". Use owner/repo or a full HTTPS URL."@);
                string_of(&out)
            },
        }
    }
}

/// The GitHub URL prefix that `owner/repo` is read from.
pub open spec fn github_prefix() -> Seq<char> {
    "https://github.com/"@
}

/// `owner/repo` from a GitHub clone URL: the first two path segments after
/// `https://github.com/`, once every trailing `.git` is removed.
pub open spec fn owner_repo_of_url(url: Seq<char>) -> Option<Seq<char>> {
    let u = trim_suffix_all(url, ".git"@);
    if has_prefix(u, github_prefix()) {
        let rest = u.skip(github_prefix().len() as int);
        let i = first_pos(rest, '/');
        if i < rest.len() {
            let after = rest.skip(i + 1);
            Some(rest.take(i) + "/"@ + after.take(first_pos(after, '/')))
        } else {
            None
        }
    } else {
        None
    }
}

/// What a source string is read as: an `http(s)://` URL is kept (with
/// `.git` appended when missing) and gives `owner/repo` from its path, or
/// the whole trimmed text when that fails; text with a `/` and no `:` is a
/// GitHub `owner/repo`; anything else is refused.
pub open spec fn parse_source_spec(input: Seq<char>) -> Option<(Seq<char>, Seq<char>)> {
    let t = trim_char_end(trim(input), '/');
    if has_prefix(t, "https://"@) || has_prefix(t, "http://"@) {
        let url = if has_suffix(t, ".git"@) {
            t
        } else {
            t + ".git"@
        };
        let owner_repo = match owner_repo_of_url(url) {
            Some(o) => o,
            None => t,
        };
        Some((owner_repo, url))
    } else if t.contains('/') && !t.contains(':') {
        Some((t, github_prefix() + t + ".git"@))
    } else {
        None
    }
}

/// A non-empty text without leading white space begins as it did.
proof fn lemma_trim_start_first(s: Seq<char>)
    ensures
        trim_start(s).len() > 0 ==> !is_ws(trim_start(s)[0]),
    decreases s.len(),
{
    if s.len() > 0 && is_ws(s[0]) {
        lemma_trim_start_first(s.drop_first());
    }
}

/// Trimming the end keeps a prefix, and a non-empty result ends in a
/// character that is not white space.
proof fn lemma_trim_end_prefix(s: Seq<char>)
    ensures
        trim_end(s).len() <= s.len(),
        trim_end(s) == s.take(trim_end(s).len() as int),
        trim_end(s).len() > 0 ==> !is_ws(trim_end(s).last()),
    decreases s.len(),
{
    if s.len() > 0 && is_ws(s.last()) {
        lemma_trim_end_prefix(s.drop_last());
        assert(s.drop_last().take(trim_end(s).len() as int) =~= s.take(trim_end(s).len() as int));
    } else {
        assert(s.take(s.len() as int) =~= s);
    }
}

/// A trimmed text followed by `/` is already trimmed.
proof fn lemma_trimmed_slash(input: Seq<char>)
    ensures
        trim(trim(input) + seq!['/']) == trim(input) + seq!['/'],
{
    let x = trim(input);
    let u = trim_start(input);
    lemma_trim_start_first(input);
    lemma_trim_end_prefix(u);
    let y = x + seq!['/'];
    assert(!is_ws('/'));
    if x.len() > 0 {
        assert(x[0] == u[0]);
        assert(y[0] == x[0]);
    }
    assert(!is_ws(y[0]));
    assert(trim_start(y) == y);
    assert(y.last() == '/');
    assert(trim_end(y) == y);
}

/// A trailing `/` never matters: a source reads the same with a slash
/// added after it (after its surrounding white space is removed), URL and
/// `owner/repo` shorthand alike.
pub proof fn law_trailing_slash_ignored(input: Seq<char>)
    ensures
        parse_source_spec(trim(input) + seq!['/']) == parse_source_spec(input),
{
    let x = trim(input);
    lemma_trimmed_slash(input);
    let y = x + seq!['/'];
    assert(y.drop_last() =~= x);
    assert(trim_char_end(y, '/') == trim_char_end(x, '/'));
}

/// `owner/repo` from a GitHub clone URL, if it names one.
pub fn extract_owner_repo(url: &str) -> (res: Option<String>)
    ensures
        match res {
            Some(s) => owner_repo_of_url(url@) == Some(s@),
            None => owner_repo_of_url(url@) is None,
        },
{
    let all = chars_of(url);
    match owner_repo_chars(&all) {
        Some(v) => Some(string_of(&v)),
        None => None,
    }
}

fn owner_repo_chars(url: &[char]) -> (res: Option<Vec<char>>)
    ensures
        match res {
            Some(v) => owner_repo_of_url(url@) == Some(v@),
            None => owner_repo_of_url(url@) is None,
        },
{
    let git = chars_of(".git");
    let u = trim_suffix_all_vec(url, &git);
    if !starts_with_str(&u, "https://github.com/") {
        return None;
    }
    let n: usize = 19;
    assert(github_prefix().len() == 19) by {
        reveal_strlit("https://github.com/");
    }
    let rest = slice_range(&u, n, u.len());
    assert(rest@ =~= u@.skip(19));
    let i = position_of(&rest, '/');
    if i >= rest.len() {
        return None;
    }
    let after = slice_range(&rest, i + 1, rest.len());
    assert(after@ =~= rest@.skip(i + 1));
    let j = position_of(&after, '/');
    let mut out = slice_range(&rest, 0, i);
    out.push('/');
    let second = slice_range(&after, 0, j);
    push_all(&mut out, &second);
    assert(out@ =~= rest@.take(i as int) + "/"@ + after@.take(j as int)) by {
        reveal_strlit("/");
    }
    Some(out)
}

/// Reads a Git source: `owner/repo` (cloned from GitHub) or a full
/// `http(s)://` URL.
pub fn parse_source(input: &str) -> (res: Result<GitSource, SourceError>)
    ensures
        match res {
            Ok(g) => parse_source_spec(input@) == Some((g.owner_repo@, g.clone_url@)),
            Err(SourceError::Invalid(s)) => parse_source_spec(input@) is None && s@ == input@,
        },
        // A trailing slash never matters.
        parse_source_spec(trim(input@) + seq!['/']) == parse_source_spec(input@),
{
    proof {
        law_trailing_slash_ignored(input@);
    }
    let all = chars_of(input);
    let t0 = trim_vec(&all);
    let t = trim_char_end_vec(&t0, '/');
    if starts_with_str(&t, "https://") || starts_with_str(&t, "http://") {
        let url = if ends_with_str(&t, ".git") {
            t.clone()
        } else {
            let git = chars_of(".git");
            concat(&t, &git)
        };
        assert(url@ == (if has_suffix(t@, ".git"@) { t@ } else { t@ + ".git"@ }));
        let owner_repo = match owner_repo_chars(&url) {
            Some(o) => o,
            None => t.clone(),
        };
        Ok(GitSource { owner_repo: string_of(&owner_repo), clone_url: string_of(&url) })
    } else if contains_char(&t, '/') && !contains_char(&t, ':') {
        let mut clone: Vec<char> = Vec::new();
        push_str(&mut clone, "https://github.com/");
        push_all(&mut clone, &t);
        push_str(&mut clone, ".git");
        assert(clone@ =~= github_prefix() + t@ + ".git"@);
        Ok(GitSource { owner_repo: string_of(&t), clone_url: string_of(&clone) })
    } else {
        Err(SourceError::Invalid(string_of(&all)))
    }
}

} // verus!
