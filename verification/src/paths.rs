//! Unix paths as strings: joining, and the component view that
//! `Path::starts_with` and `Path::strip_prefix` compare.

use vstd::prelude::*;

use crate::text::{chars_of, push_all, push_str, string_of};

verus! {

/// `base` joined with `other` (`PathBuf::join` on Unix): an absolute
/// `other` replaces `base`; otherwise a `/` separates them unless `base` is
/// empty or already ends with one.
pub open spec fn join_spec(base: Seq<char>, other: Seq<char>) -> Seq<char> {
    if other.len() > 0 && other[0] == '/' {
        other
    } else if base.len() == 0 || base.last() == '/' {
        base + other
    } else {
        base + seq!['/'] + other
    }
}

/// Joins two paths as `PathBuf::join` does on Unix.
pub fn join(base: &str, other: &str) -> (res: String)
    ensures
        res@ == join_spec(base@, other@),
{
    let b = chars_of(base);
    let o = chars_of(other);
    if o.len() > 0 && o[0] == '/' {
        return string_of(&o);
    }
    let mut out = crate::text::slice_range(&b, 0, b.len());
    assert(out@ =~= b@);
    if !(b.len() == 0 || b[b.len() - 1] == '/') {
        out.push('/');
    }
    push_all(&mut out, &o);
    proof {
        if !(b@.len() == 0 || b@.last() == '/') {
            assert(out@ =~= b@ + seq!['/'] + o@);
        }
    }
    string_of(&out)
}

/// The path components of `s`, as `Path::components` gives them on Unix:
/// a leading `/` is the root, empty components (repeated slashes) and `.`
/// components are dropped except for a `.` that starts a relative path.
pub struct PathComponents {
    pub absolute: bool,
    pub parts: Seq<Seq<char>>,
}

/// The components of the text of a path, read left to right: `cur` is the
/// component being read, `parts` those already complete, and `first`
/// whether no component has been seen yet.
pub open spec fn components_from(
    s: Seq<char>,
    i: int,
    cur: Seq<char>,
    parts: Seq<Seq<char>>,
    first: bool,
    absolute: bool,
) -> Seq<Seq<char>>
    decreases s.len() - i,
{
    if i >= s.len() {
        keep_component(parts, cur, first, absolute)
    } else if s[i] == '/' {
        let next = keep_component(parts, cur, first, absolute);
        components_from(s, i + 1, Seq::empty(), next, first && cur.len() == 0, absolute)
    } else {
        components_from(s, i + 1, cur.push(s[i]), parts, first, absolute)
    }
}

/// `parts` with the finished component `cur` added when it counts.
pub open spec fn keep_component(
    parts: Seq<Seq<char>>,
    cur: Seq<char>,
    first: bool,
    absolute: bool,
) -> Seq<Seq<char>> {
    if cur.len() == 0 {
        parts
    } else if cur == seq!['.'] && !(first && !absolute) {
        parts
    } else {
        parts.push(cur)
    }
}

/// The components of a path.
pub open spec fn components(s: Seq<char>) -> PathComponents {
    let absolute = s.len() > 0 && s[0] == '/';
    PathComponents {
        absolute,
        parts: components_from(s, 0, Seq::empty(), Seq::empty(), true, absolute),
    }
}

/// `base` is a prefix of `path`, component-wise (`Path::starts_with`).
pub open spec fn path_starts_with(path: Seq<char>, base: Seq<char>) -> bool {
    let p = components(path);
    let b = components(base);
    p.absolute == b.absolute && b.parts.len() <= p.parts.len() && p.parts.take(
        b.parts.len() as int,
    ) == b.parts
}

/// The components of a path, computed.
pub fn path_components(s: &[char]) -> (res: (bool, Vec<Vec<char>>))
    ensures
        res.0 == components(s@).absolute,
        res.1@.len() == components(s@).parts.len(),
        forall|k: int| 0 <= k < res.1@.len() ==> #[trigger] res.1@[k]@ == components(s@).parts[k],
{
    let absolute = s.len() > 0 && s[0] == '/';
    let mut parts: Vec<Vec<char>> = Vec::new();
    let mut cur: Vec<char> = Vec::new();
    let mut first = true;
    let mut i: usize = 0;
    let ghost view_parts: Seq<Seq<char>> = Seq::empty();
    while i < s.len()
        invariant
            i <= s@.len(),
            absolute == (s@.len() > 0 && s@[0] == '/'),
            parts@.len() == view_parts.len(),
            forall|k: int| 0 <= k < parts@.len() ==> #[trigger] parts@[k]@ == view_parts[k],
            components_from(s@, 0, Seq::empty(), Seq::empty(), true, absolute)
                == components_from(s@, i as int, cur@, view_parts, first, absolute),
        decreases s@.len() - i,
    {
        if s[i] == '/' {
            let ghost next = keep_component(view_parts, cur@, first, absolute);
            let keep = cur.len() > 0 && !(cur.len() == 1 && cur[0] == '.' && !(first
                && !absolute));
            proof {
                if cur@.len() == 1 && cur@[0] == '.' {
                    assert(cur@ =~= seq!['.']);
                }
                if cur@ == seq!['.'] {
                    assert(cur@.len() == 1 && cur@[0] == '.');
                }
            }
            let was_empty = cur.len() == 0;
            if keep {
                parts.push(cur);
                proof {
                    view_parts = view_parts.push(parts@[parts@.len() - 1]@);
                }
            }
            proof {
                assert(view_parts =~= next);
            }
            cur = Vec::new();
            first = first && was_empty;
        } else {
            cur.push(s[i]);
        }
        i = i + 1;
    }
    let keep = cur.len() > 0 && !(cur.len() == 1 && cur[0] == '.' && !(first && !absolute));
    proof {
        if cur@.len() == 1 && cur@[0] == '.' {
            assert(cur@ =~= seq!['.']);
        }
        if cur@ == seq!['.'] {
            assert(cur@.len() == 1 && cur@[0] == '.');
        }
    }
    if keep {
        parts.push(cur);
        proof {
            view_parts = view_parts.push(parts@[parts@.len() - 1]@);
        }
    }
    (absolute, parts)
}

/// Whether the component lists `b` (the base) is a prefix of `p`.
fn parts_prefix(p: &Vec<Vec<char>>, b: &Vec<Vec<char>>) -> (res: bool)
    ensures
        res == (b@.len() <= p@.len() && forall|k: int| 0 <= k < b@.len() ==> p@[k]@ == b@[k]@),
{
    if b.len() > p.len() {
        return false;
    }
    let mut k: usize = 0;
    while k < b.len()
        invariant
            b@.len() <= p@.len(),
            k <= b@.len(),
            forall|m: int| 0 <= m < k ==> p@[m]@ == b@[m]@,
        decreases b@.len() - k,
    {
        if !crate::text::chars_eq(&p[k], &b[k]) {
            return false;
        }
        k = k + 1;
    }
    true
}

/// Whether `path` starts with `base`, component-wise.
pub fn starts_with_path(path: &str, base: &str) -> (res: bool)
    ensures
        res == path_starts_with(path@, base@),
{
    let pc = chars_of(path);
    let bc = chars_of(base);
    let (pa, pp) = path_components(&pc);
    let (ba, bp) = path_components(&bc);
    let r = pa == ba && parts_prefix(&pp, &bp);
    proof {
        let p = components(path@);
        let b = components(base@);
        if r {
            assert forall|k: int| 0 <= k < b.parts.len() implies p.parts.take(
                b.parts.len() as int,
            )[k] == b.parts[k] by {
                assert(pp@[k]@ == p.parts[k]);
                assert(bp@[k]@ == b.parts[k]);
            }
            assert(p.parts.take(b.parts.len() as int) =~= b.parts);
        } else if pa == ba && b.parts.len() <= p.parts.len() {
            if p.parts.take(b.parts.len() as int) == b.parts {
                let k = choose|k: int| 0 <= k < bp@.len() && pp@[k]@ != bp@[k]@;
                assert(p.parts.take(b.parts.len() as int)[k] == p.parts[k]);
                assert(pp@[k]@ == p.parts[k]);
                assert(bp@[k]@ == b.parts[k]);
            }
        }
    }
    r
}

/// The first component of `path` after the prefix `base`, when `path`
/// lies strictly under `base`.
pub open spec fn first_component_under(path: Seq<char>, base: Seq<char>) -> Option<Seq<char>> {
    if path_starts_with(path, base) && components(base).parts.len() < components(path).parts.len() {
        Some(components(path).parts[components(base).parts.len() as int])
    } else {
        None
    }
}

/// The first component of `path` below `base`, if `path` is strictly under `base`.
pub fn component_under(path: &str, base: &str) -> (res: Option<String>)
    ensures
        match res {
            Some(c) => first_component_under(path@, base@) == Some(c@),
            None => first_component_under(path@, base@) is None,
        },
{
    if !starts_with_path(path, base) {
        return None;
    }
    let pc = chars_of(path);
    let bc = chars_of(base);
    let (_pa, pp) = path_components(&pc);
    let (_ba, bp) = path_components(&bc);
    if bp.len() < pp.len() {
        Some(string_of(&pp[bp.len()]))
    } else {
        None
    }
}

} // verus!
