//! Session log rotation: which files of the log directory are removed so
//! that only the most recent `keep` session logs remain. Listing the
//! directory, reading modification times and removing files happen outside
//! the library.

use vstd::prelude::*;

use crate::text::{chars_of, ends_with_str, has_suffix};

verus! {

/// Whether a file name has the extension `log`, as `Path::extension` reads
/// it: the name ends in `.log` and that dot is not its first character.
pub open spec fn is_log_file_name(name: Seq<char>) -> bool {
    name.len() > 4 && has_suffix(name, ".log"@)
}

/// Whether the file at `i` is a session log.
pub open spec fn is_session_log(names: Seq<String>, i: int) -> bool {
    0 <= i < names.len() && is_log_file_name(names[i]@)
}

/// The positions of the session logs among the first `n` names, in order.
pub open spec fn log_positions(names: Seq<String>, n: int) -> Seq<int>
    decreases n,
{
    if n <= 0 {
        Seq::empty()
    } else if is_session_log(names, n - 1) {
        log_positions(names, n - 1).push(n - 1)
    } else {
        log_positions(names, n - 1)
    }
}

/// How many session logs go: all but the `keep` most recent, none when
/// there are no more than `keep`.
pub open spec fn excess(names: Seq<String>, keep: nat) -> nat {
    let count = log_positions(names, names.len() as int).len();
    if count > keep {
        (count - keep) as nat
    } else {
        0
    }
}

/// The order in which session logs are removed, oldest first: by
/// modification time, a file whose time could not be read before any other,
/// files of equal time in listing order.
pub open spec fn removed_before(modified: Seq<Option<i128>>, i: int, j: int) -> bool {
    match (modified[i], modified[j]) {
        (None, Some(_)) => true,
        (Some(_), None) => false,
        (None, None) => i < j,
        (Some(a), Some(b)) => a < b || (a == b && i < j),
    }
}

fn is_log_file(name: &String) -> (res: bool)
    ensures
        res == is_log_file_name(name@),
{
    let c = chars_of(name.as_str());
    c.len() > 4 && ends_with_str(&c, ".log")
}

fn comes_before(modified: &Vec<Option<i128>>, i: usize, j: usize) -> (res: bool)
    requires
        i < modified.len(),
        j < modified.len(),
    ensures
        res == removed_before(modified@, i as int, j as int),
{
    match (modified[i], modified[j]) {
        (None, Some(_)) => true,
        (Some(_), None) => false,
        (None, None) => i < j,
        (Some(a), Some(b)) => a < b || (a == b && i < j),
    }
}

/// The positions of the session logs among `names`, in listing order.
fn session_log_positions(names: &Vec<String>) -> (res: Vec<usize>)
    ensures
        res@.len() == log_positions(names@, names@.len() as int).len(),
        forall|r: int| 0 <= r < res@.len() ==> is_session_log(names@, #[trigger] res@[r] as int),
        forall|r1: int, r2: int|
            0 <= r1 < r2 < res@.len() ==> (#[trigger] res@[r1]) < (#[trigger] res@[r2]),
        forall|i: int| #[trigger] is_session_log(names@, i) ==> res@.contains(i as usize),
{
    let mut res: Vec<usize> = Vec::new();
    let mut k: usize = 0;
    while k < names.len()
        invariant
            k <= names.len(),
            res@.len() == log_positions(names@, k as int).len(),
            forall|r: int| 0 <= r < res@.len() ==> (#[trigger] res@[r]) < k,
            forall|r: int| 0 <= r < res@.len() ==> is_session_log(names@, #[trigger] res@[r] as int),
            forall|r1: int, r2: int|
                0 <= r1 < r2 < res@.len() ==> (#[trigger] res@[r1]) < (#[trigger] res@[r2]),
            forall|i: int| 0 <= i < k && #[trigger] is_session_log(names@, i) ==> res@.contains(i as usize),
        decreases names.len() - k,
    {
        if is_log_file(&names[k]) {
            proof {
                assert(is_session_log(names@, k as int));
            }
            let ghost before = res@;
            res.push(k);
            proof {
                assert forall|i: int| 0 <= i < k + 1 && #[trigger] is_session_log(names@, i) implies res@.contains(i as usize) by {
                    if i == k {
                        assert(res@[res@.len() - 1] == k);
                    } else {
                        assert(before.contains(i as usize));
                        let r = choose|r: int| 0 <= r < before.len() && before[r] == i as usize;
                        assert(res@[r] == i as usize);
                    }
                }
            }
        } else {
            proof {
                assert(!is_session_log(names@, k as int));
            }
        }
        k = k + 1;
    }
    res
}

/// A sequence of distinct session-log positions shorter than the number of
/// session logs leaves one out.
proof fn lemma_some_log_left(positions: Seq<usize>, chosen: Seq<usize>, names: Seq<String>)
    requires
        chosen.no_duplicates(),
        positions.no_duplicates(),
        chosen.len() < positions.len(),
    ensures
        exists|r: int| 0 <= r < positions.len() && !chosen.contains(#[trigger] positions[r]),
{
    if forall|r: int| 0 <= r < positions.len() ==> chosen.contains(#[trigger] positions[r]) {
        assert(positions.to_set().subset_of(chosen.to_set())) by {
            assert forall|x: usize| positions.to_set().contains(x) implies chosen.to_set().contains(x) by {
                let r = choose|r: int| 0 <= r < positions.len() && positions[r] == x;
                assert(chosen.contains(positions[r]));
            }
        }
        vstd::set_lib::lemma_len_subset(positions.to_set(), chosen.to_set());
        positions.unique_seq_to_set();
        chosen.unique_seq_to_set();
        assert(false);
    }
}

/// The session logs to remove so that only the `keep` most recent remain,
/// given each directory entry's file name and modification time (`None`
/// where it could not be read), oldest first: the `excess` session logs
/// that come first in `removed_before` order, in that order.
pub fn session_logs_to_remove(names: &Vec<String>, modified: &Vec<Option<i128>>, keep: usize) -> (res: Vec<usize>)
    requires
        names.len() == modified.len(),
    ensures
        res@.len() == excess(names@, keep as nat),
        forall|r: int| 0 <= r < res@.len() ==> is_session_log(names@, #[trigger] res@[r] as int),
        forall|r1: int, r2: int|
            0 <= r1 < r2 < res@.len() ==> removed_before(
                modified@,
                #[trigger] res@[r1] as int,
                #[trigger] res@[r2] as int,
            ),
        forall|i: usize, r: int|
            #![trigger res@.contains(i), res@[r]]
            is_session_log(names@, i as int) && !res@.contains(i) && 0 <= r < res@.len()
                ==> removed_before(modified@, res@[r] as int, i as int),
{
    let logs = session_log_positions(names);
    let goal: usize = if logs.len() > keep { logs.len() - keep } else { 0 };
    proof {
        assert(logs@.no_duplicates()) by {
            assert forall|a: int, b: int| 0 <= a < logs@.len() && 0 <= b < logs@.len() && a != b implies logs@[a] != logs@[b] by {
                if a < b {
                    assert(logs@[a] < logs@[b]);
                } else {
                    assert(logs@[b] < logs@[a]);
                }
            }
        }
    }
    let mut res: Vec<usize> = Vec::new();
    while res.len() < goal
        invariant
            goal <= logs@.len(),
            goal == excess(names@, keep as nat),
            names.len() == modified.len(),
            logs@.no_duplicates(),
            forall|r: int| 0 <= r < logs@.len() ==> is_session_log(names@, #[trigger] logs@[r] as int),
            forall|i: int| #[trigger] is_session_log(names@, i) ==> logs@.contains(i as usize),
            res@.len() <= goal,
            forall|r: int| 0 <= r < res@.len() ==> is_session_log(names@, #[trigger] res@[r] as int),
            forall|r1: int, r2: int|
                0 <= r1 < r2 < res@.len() ==> removed_before(
                    modified@,
                    #[trigger] res@[r1] as int,
                    #[trigger] res@[r2] as int,
                ),
            forall|i: usize, r: int|
                #![trigger res@.contains(i), res@[r]]
                is_session_log(names@, i as int) && !res@.contains(i) && 0 <= r < res@.len()
                    ==> removed_before(modified@, res@[r] as int, i as int),
        decreases goal - res@.len(),
    {
        proof {
            assert(res@.no_duplicates()) by {
                assert forall|a: int, b: int| 0 <= a < res@.len() && 0 <= b < res@.len() && a != b implies res@[a] != res@[b] by {
                    if a < b {
                        assert(removed_before(modified@, res@[a] as int, res@[b] as int));
                    } else {
                        assert(removed_before(modified@, res@[b] as int, res@[a] as int));
                    }
                }
            }
            lemma_some_log_left(logs@, res@, names@);
        }
        let ghost n = res@.len();
        // The earliest session log, in removal order, not chosen yet.
        let mut best: Option<usize> = None;
        let mut t: usize = 0;
        while t < logs.len()
            invariant
                t <= logs@.len(),
                names.len() == modified.len(),
                res@.len() == n,
                forall|r: int| 0 <= r < logs@.len() ==> is_session_log(names@, #[trigger] logs@[r] as int),
                forall|r: int| 0 <= r < res@.len() ==> is_session_log(names@, #[trigger] res@[r] as int),
                forall|r1: int, r2: int|
                    0 <= r1 < r2 < res@.len() ==> removed_before(
                        modified@,
                        #[trigger] res@[r1] as int,
                        #[trigger] res@[r2] as int,
                    ),
                forall|i: usize, r: int|
                    #![trigger res@.contains(i), res@[r]]
                    is_session_log(names@, i as int) && !res@.contains(i) && 0 <= r < res@.len()
                        ==> removed_before(modified@, res@[r] as int, i as int),
                match best {
                    Some(b) => {
                        &&& is_session_log(names@, b as int)
                        &&& !res@.contains(b)
                        &&& forall|u: int|
                            0 <= u < t && !res@.contains(#[trigger] logs@[u]) ==> logs@[u] == b
                                || removed_before(modified@, b as int, logs@[u] as int)
                    },
                    None => forall|u: int| 0 <= u < t ==> res@.contains(#[trigger] logs@[u]),
                },
            decreases logs@.len() - t,
        {
            let c = logs[t];
            let fresh = res.len() == 0 || comes_before(modified, res[res.len() - 1], c);
            proof {
                if n > 0 {
                    if res@.contains(c) {
                        let r = choose|r: int| 0 <= r < res@.len() && res@[r] == c;
                        if r < n - 1 {
                            assert(removed_before(modified@, res@[r] as int, res@[n - 1] as int));
                        }
                        assert(!fresh);
                    } else {
                        assert(is_session_log(names@, c as int));
                        assert(removed_before(modified@, res@[n - 1] as int, c as int));
                        assert(fresh);
                    }
                } else {
                    assert(!res@.contains(c));
                }
            }
            if fresh {
                match best {
                    None => {
                        best = Some(c);
                    },
                    Some(b) => {
                        if comes_before(modified, c, b) {
                            best = Some(c);
                        }
                    },
                }
            }
            t = t + 1;
        }
        match best {
            Some(b) => {
                proof {
                    assert forall|i: usize, r: int|
                        #![trigger res@.push(b).contains(i), res@.push(b)[r]]
                        is_session_log(names@, i as int) && !res@.push(b).contains(i) && 0 <= r < res@.push(b).len()
                            implies removed_before(modified@, res@.push(b)[r] as int, i as int) by {
                        assert(!res@.contains(i)) by {
                            if res@.contains(i) {
                                let q = choose|q: int| 0 <= q < res@.len() && res@[q] == i;
                                assert(res@.push(b)[q] == i);
                            }
                        }
                        assert(i != b) by {
                            assert(res@.push(b)[n as int] == b);
                        }
                        assert(logs@.contains(i));
                        let u = choose|u: int| 0 <= u < logs@.len() && logs@[u] == i;
                        assert(!res@.contains(logs@[u]));
                        if r < n {
                            assert(res@.push(b)[r] == res@[r]);
                        }
                    }
                    assert forall|r1: int, r2: int|
                        0 <= r1 < r2 < res@.push(b).len() implies removed_before(
                            modified@,
                            #[trigger] res@.push(b)[r1] as int,
                            #[trigger] res@.push(b)[r2] as int,
                        ) by {
                        if r2 == n {
                            assert(res@.push(b)[r1] == res@[r1]);
                        } else {
                            assert(res@.push(b)[r1] == res@[r1]);
                            assert(res@.push(b)[r2] == res@[r2]);
                        }
                    }
                }
                res.push(b);
            },
            None => {
                proof {
                    let r = choose|r: int| 0 <= r < logs@.len() && !res@.contains(#[trigger] logs@[r]);
                    assert(res@.contains(logs@[r]));
                }
            },
        }
    }
    res
}

} // verus!
