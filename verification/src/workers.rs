//! The worker pool's bookkeeping: which worker ids are running, how a new
//! worker's id is chosen, and what starting or stopping one answers. The
//! workers themselves (agents, tasks) run outside the library.

use vstd::prelude::*;

use crate::text::{decimal, push_decimal, push_str, str_is, string_of};

verus! {

/// How a worker is configured.
pub struct WorkerConfig {
    pub recipe: Option<String>,
    pub model: Option<String>,
}

/// A running worker as the API lists it.
pub struct WorkerInfo {
    pub id: String,
    pub status: &'static str,
}

/// Why a worker could not be started or stopped.
#[derive(Debug)]
pub enum WorkerError {
    /// A worker with this id is already running.
    AlreadyExists(String),
    /// No worker with this id is running.
    NotFound(String),
}

/// The message of a worker error.
pub open spec fn worker_error_text(e: WorkerError) -> Seq<char> {
    match e {
        WorkerError::AlreadyExists(id) => "worker '"@ + id@ + "' already exists"@,
        WorkerError::NotFound(id) => "worker '"@ + id@ + "' not found"@,
    }
}

impl WorkerError {
    /// The message shown for this error.
    pub fn message(&self) -> (res: String)
        ensures
            res@ == worker_error_text(*self),
    {
        let mut out: Vec<char> = Vec::new();
        match self {
            WorkerError::AlreadyExists(id) => {
                push_str(&mut out, "worker '");
                push_str(&mut out, id.as_str());
                push_str(&mut out, "' already exists");
            },
            WorkerError::NotFound(id) => {
                push_str(&mut out, "worker '");
                push_str(&mut out, id.as_str());
                push_str(&mut out, "' not found");
            },
        }
        assert(out@ =~= worker_error_text(*self));
        string_of(&out)
    }
}

/// The running workers' ids and the counter for generated ids.
pub struct WorkerRegistry {
    pub ids: Vec<String>,
    /// The number the next generated id gets.
    pub counter: u64,
}

/// The generated id for number `n`: `worker-<n>`.
pub open spec fn generated_id(n: u64) -> Seq<char> {
    "worker-"@ + decimal(n as nat)
}

/// The characters of each id.
pub open spec fn id_seq(v: Seq<String>) -> Seq<Seq<char>> {
    v.map_values(|s: String| s@)
}

impl WorkerRegistry {
    /// The ids of the running workers, as a set.
    pub open spec fn running(&self) -> Set<Seq<char>> {
        id_seq(self.ids@).to_set()
    }

    /// Each running worker is listed once.
    pub open spec fn wf(&self) -> bool {
        forall|i: int, j: int|
            0 <= i < self.ids@.len() && 0 <= j < self.ids@.len() && i != j ==> #[trigger] self.ids@[i]@
                != #[trigger] self.ids@[j]@
    }

    /// An empty registry whose first generated id is `worker-1`.
    pub fn new() -> (res: WorkerRegistry)
        ensures
            res.wf(),
            res.ids@.len() == 0,
            res.counter == 1,
    {
        WorkerRegistry { ids: Vec::new(), counter: 1 }
    }

    fn position(&self, id: &str) -> (res: Option<usize>)
        ensures
            match res {
                Some(i) => i < self.ids@.len() && self.ids@[i as int]@ == id@,
                None => forall|k: int| 0 <= k < self.ids@.len() ==> #[trigger] self.ids@[k]@ != id@,
            },
    {
        let mut i: usize = 0;
        while i < self.ids.len()
            invariant
                i <= self.ids@.len(),
                forall|k: int| 0 <= k < i ==> #[trigger] self.ids@[k]@ != id@,
            decreases self.ids@.len() - i,
        {
            if str_is(self.ids[i].as_str(), id) {
                return Some(i);
            }
            i = i + 1;
        }
        None
    }

    /// Whether a worker with this id is running.
    pub fn contains(&self, id: &str) -> (res: bool)
        ensures
            res == self.running().contains(id@),
    {
        let r = self.position(id);
        proof {
            let v = id_seq(self.ids@);
            match r {
                Some(i) => {
                    assert(v[i as int] == id@);
                },
                None => {
                    assert forall|k: int| 0 <= k < v.len() implies v[k] != id@ by {
                        assert(v[k] == self.ids@[k]@);
                    }
                },
            }
        }
        r.is_some()
    }

    /// Chooses the id of a worker to start: the requested one, else the
    /// next generated `worker-<n>` (which uses up the number); refused when
    /// a worker of that id already runs.
    pub fn choose_id(&mut self, requested: Option<String>) -> (res: Result<String, WorkerError>)
        ensures
            final(self).ids == old(self).ids,
            match requested {
                Some(r) => final(self).counter == old(self).counter,
                None => final(self).counter == old(self).counter.wrapping_add(1),
            },
            ({
                let id = match requested {
                    Some(r) => r@,
                    None => generated_id(old(self).counter),
                };
                match res {
                    Ok(s) => s@ == id && !old(self).running().contains(id),
                    Err(e) => (e matches WorkerError::AlreadyExists(s) && s@ == id) && old(
                        self,
                    ).running().contains(id),
                }
            }),
    {
        let id = match requested {
            Some(r) => r,
            None => {
                let n = self.counter;
                self.counter = self.counter.wrapping_add(1);
                let mut out: Vec<char> = Vec::new();
                push_str(&mut out, "worker-");
                push_decimal(&mut out, n);
                assert(out@ =~= generated_id(n));
                string_of(&out)
            },
        };
        if self.contains(id.as_str()) {
            Err(WorkerError::AlreadyExists(id))
        } else {
            Ok(id)
        }
    }

    /// Records a started worker.
    pub fn register(&mut self, id: String)
        requires
            old(self).wf(),
            !old(self).running().contains(id@),
        ensures
            final(self).wf(),
            final(self).running() == old(self).running().insert(id@),
            final(self).counter == old(self).counter,
    {
        let ghost before = self.ids@;
        proof {
            assert forall|k: int| 0 <= k < before.len() implies #[trigger] before[k]@ != id@ by {
                assert(id_seq(before)[k] == before[k]@);
            }
        }
        self.ids.push(id);
        let ghost after = self.ids@;
        assert(id_seq(after) =~= id_seq(before).push(
            after[before.len() as int]@,
        ));
        assert(id_seq(after).to_set() =~= before.map_values(
            |s: String| s@,
        ).to_set().insert(after[before.len() as int]@)) by {
            vstd::seq_lib::lemma_seq_contains_after_push(
                id_seq(before),
                after[before.len() as int]@,
                after[before.len() as int]@,
            );
            assert forall|x: Seq<char>| #[trigger] id_seq(after).contains(x)
                <==> id_seq(before).contains(x) || x == after[before.len() as int]@ by {
                let a = id_seq(after);
                let b = id_seq(before);
                if a.contains(x) {
                    let k = choose|k: int| 0 <= k < a.len() && a[k] == x;
                    if k < b.len() {
                        assert(b[k] == x);
                    }
                }
                if b.contains(x) {
                    let k = choose|k: int| 0 <= k < b.len() && b[k] == x;
                    assert(a[k] == x);
                }
                if x == after[before.len() as int]@ {
                    assert(a[before.len() as int] == x);
                }
            }
        }
    }

    /// Stops tracking the worker `id`; refused when it does not run.
    pub fn remove(&mut self, id: &str) -> (res: Result<(), WorkerError>)
        requires
            old(self).wf(),
        ensures
            final(self).wf(),
            final(self).counter == old(self).counter,
            match res {
                Ok(()) => old(self).running().contains(id@) && final(self).running() == old(
                    self,
                ).running().remove(id@),
                Err(e) => !old(self).running().contains(id@) && final(self).running() == old(
                    self,
                ).running() && (e matches WorkerError::NotFound(s) && s@ == id@),
            },
    {
        match self.position(id) {
            Some(i) => {
                let ghost before = self.ids@;
                let ghost b = id_seq(before);
                self.ids.remove(i);
                let ghost after = self.ids@;
                let ghost a = id_seq(after);
                proof {
                    assert(after == before.remove(i as int));
                    assert(b[i as int] == id@);
                    assert forall|p: int, q: int|
                        0 <= p < after.len() && 0 <= q < after.len() && p != q implies #[trigger] after[p]@
                        != #[trigger] after[q]@ by {
                        let p0 = if p < i { p } else { p + 1 };
                        let q0 = if q < i { q } else { q + 1 };
                        assert(after[p] == before[p0]);
                        assert(after[q] == before[q0]);
                    }
                    assert forall|x: Seq<char>| #[trigger] a.contains(x) <==> (b.contains(x) && x
                        != id@) by {
                        if a.contains(x) {
                            let k = choose|k: int| 0 <= k < a.len() && a[k] == x;
                            let k0 = if k < i { k } else { k + 1 };
                            assert(after[k] == before[k0]);
                            assert(b[k0] == x);
                            assert(k0 != i);
                            assert(before[k0]@ != before[i as int]@);
                        }
                        if b.contains(x) && x != id@ {
                            let k = choose|k: int| 0 <= k < b.len() && b[k] == x;
                            assert(k != i);
                            let k1 = if k < i { k } else { k - 1 };
                            assert(after[k1] == before[k]);
                            assert(a[k1] == x);
                        }
                    }
                    assert(a.to_set() =~= b.to_set().remove(id@));
                }
                Ok(())
            },
            None => {
                proof {
                    let v = id_seq(self.ids@);
                    assert forall|k: int| 0 <= k < v.len() implies v[k] != id@ by {
                        assert(v[k] == self.ids@[k]@);
                    }
                }
                Err(WorkerError::NotFound(id.to_string()))
            },
        }
    }

    /// The running workers as the API lists them.
    pub fn list(&self) -> (res: Vec<WorkerInfo>)
        ensures
            res@.len() == self.ids@.len(),
            forall|k: int|
                0 <= k < res@.len() ==> #[trigger] res@[k].id@ == self.ids@[k]@ && res@[k].status@
                    == "running"@,
    {
        let mut out: Vec<WorkerInfo> = Vec::new();
        let mut i: usize = 0;
        while i < self.ids.len()
            invariant
                i <= self.ids@.len(),
                out@.len() == i,
                forall|k: int|
                    0 <= k < i ==> #[trigger] out@[k].id@ == self.ids@[k]@ && out@[k].status@
                        == "running"@,
            decreases self.ids@.len() - i,
        {
            out.push(WorkerInfo { id: self.ids[i].clone(), status: "running" });
            i = i + 1;
        }
        out
    }

    /// Stops tracking every worker; gives their ids.
    pub fn drain(&mut self) -> (res: Vec<String>)
        ensures
            res@ == old(self).ids@,
            final(self).ids@.len() == 0,
            final(self).counter == old(self).counter,
    {
        let mut taken: Vec<String> = Vec::new();
        std::mem::swap(&mut taken, &mut self.ids);
        taken
    }

    /// How many workers run.
    pub fn len(&self) -> (res: usize)
        ensures
            res == self.ids@.len(),
    {
        self.ids.len()
    }
}

/// Registering a worker and then removing it leaves the running set as it
/// was.
pub proof fn law_register_then_remove(running: Set<Seq<char>>, id: Seq<char>)
    requires
        !running.contains(id),
    ensures
        running.insert(id).contains(id),
        running.insert(id).remove(id) == running,
{
    assert(running.insert(id).remove(id) =~= running);
}

} // verus!
