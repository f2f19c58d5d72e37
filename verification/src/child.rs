//! The processes that were started and have not been seen to end.

use vstd::prelude::*;

verus! {

/// The ids of the processes that are tracked. The processes themselves stay
/// with whoever started them.
#[derive(Debug)]
pub struct Children {
    inner: Vec<u32>,
}

impl View for Children {
    type V = Set<u32>;

    closed spec fn view(&self) -> Set<u32> {
        self.inner@.to_set()
    }
}

impl Default for Children {
    fn default() -> (out: Self)
        ensures
            out@ == Set::<u32>::empty(),
    {
        Self::new()
    }
}

impl Children {
    #[verifier::type_invariant]
    closed spec fn distinct(&self) -> bool {
        self.inner@.no_duplicates()
    }

    pub fn new() -> (out: Self)
        ensures
            out@ == Set::<u32>::empty(),
    {
        let out = Children { inner: Vec::new() };
        assert(out.inner@.to_set() =~= Set::<u32>::empty());
        out
    }

    #[must_use]
    pub fn len(&self) -> (n: usize)
        ensures
            self@.finite(),
            n == self@.len(),
    {
        proof {
            use_type_invariant(self);
            self.inner@.unique_seq_to_set();
            vstd::seq_lib::seq_to_set_is_finite(self.inner@);
        }
        self.inner.len()
    }

    #[must_use]
    pub fn is_empty(&self) -> (r: bool)
        ensures
            r == (self@.len() == 0),
    {
        self.len() == 0
    }

    /// Whether this process is tracked.
    pub fn contains(&self, pid: u32) -> (r: bool)
        ensures
            r == self@.contains(pid),
    {
        let mut i: usize = 0;
        while i < self.inner.len()
            invariant
                i <= self.inner.len(),
                forall|k: int| 0 <= k < i ==> self.inner@[k] != pid,
            decreases self.inner.len() - i,
        {
            if self.inner[i] == pid {
                assert(self.inner@.contains(pid));
                return true;
            }
            i = i + 1;
        }
        assert(!self.inner@.contains(pid));
        false
    }

    /// Tracks another process: `false` if it is tracked already, else `true`.
    pub fn insert(&mut self, pid: u32) -> (fresh: bool)
        ensures
            fresh == !old(self)@.contains(pid),
            final(self)@ == old(self)@.insert(pid),
    {
        proof {
            use_type_invariant(&*self);
        }
        if self.contains(pid) {
            assert(self@ =~= self@.insert(pid));
            false
        } else {
            let ghost before = self.inner@;
            let mut grown = self.inner.clone();
            assert(grown@ =~= before);
            grown.push(pid);
            assert(grown@.no_duplicates()) by {
                assert forall|i: int, j: int|
                    0 <= i < grown@.len() && 0 <= j < grown@.len() && i != j implies grown@[i]
                    != grown@[j] by {
                    if i < before.len() {
                        assert(before.contains(before[i]));
                    }
                    if j < before.len() {
                        assert(before.contains(before[j]));
                    }
                }
            }
            self.inner = grown;
            assert(self.inner@.to_set() =~= before.to_set().insert(pid)) by {
                assert forall|x: u32| self.inner@.to_set().contains(x) <==> before.to_set().insert(
                    pid,
                ).contains(x) by {
                    if self.inner@.contains(x) {
                        let k = choose|k: int| 0 <= k < self.inner@.len() && self.inner@[k] == x;
                        if k < before.len() {
                            assert(before.contains(before[k]));
                        }
                    }
                    if before.contains(x) {
                        let k = choose|k: int| 0 <= k < before.len() && before[k] == x;
                        assert(self.inner@[k] == x);
                    }
                    if x == pid {
                        assert(self.inner@[before.len() as int] == x);
                    }
                }
            }
            true
        }
    }

    /// Tracks every process of `pids` too.
    pub fn extend(&mut self, pids: &Vec<u32>)
        ensures
            final(self)@ == old(self)@.union(pids@.to_set()),
    {
        let mut i: usize = 0;
        while i < pids.len()
            invariant
                i <= pids.len(),
                forall|x: u32|
                    self@.contains(x) <==> (old(self)@.contains(x) || exists|k: int|
                        0 <= k < i && pids@[k] == x),
            decreases pids.len() - i,
        {
            self.insert(pids[i]);
            i = i + 1;
        }
        assert(self@ =~= old(self)@.union(pids@.to_set())) by {
            assert forall|x: u32| self@.contains(x) <==> old(self)@.union(
                pids@.to_set(),
            ).contains(x) by {
                if pids@.contains(x) {
                    let k = choose|k: int| 0 <= k < pids@.len() && pids@[k] == x;
                    assert(pids@[k] == x);
                }
            }
        }
    }

    /// Takes over what `reaper` tracks.
    pub fn merge(&mut self, reaper: Self)
        ensures
            final(self)@ == old(self)@.union(reaper@),
    {
        self.extend(&reaper.inner);
    }

    /// The tracked ids: the processes to ask whether they have ended.
    pub fn pids(&self) -> (out: Vec<u32>)
        ensures
            out@.to_set() == self@,
            out@.no_duplicates(),
    {
        proof {
            use_type_invariant(self);
        }
        let out = self.inner.clone();
        assert(out@ =~= self.inner@);
        out
    }

    /// Forgets the processes of `exited`: those that were asked and had
    /// ended. Returns the ones that were tracked until now.
    pub fn reap(&mut self, exited: &Vec<u32>) -> (gone: Vec<u32>)
        ensures
            final(self)@ == remaining(old(self)@, exited@.to_set()),
            gone@.to_set() == reaped(old(self)@, exited@.to_set()),
            gone@.no_duplicates(),
    {
        proof {
            use_type_invariant(&*self);
        }
        let mut kept: Vec<u32> = Vec::new();
        let mut gone: Vec<u32> = Vec::new();
        let mut i: usize = 0;
        while i < self.inner.len()
            invariant
                i <= self.inner.len(),
                self.inner@.no_duplicates(),
                self.inner@ == old(self).inner@,
                kept@.no_duplicates(),
                gone@.no_duplicates(),
                forall|x: u32|
                    kept@.contains(x) <==> (!exited@.contains(x) && exists|k: int|
                        0 <= k < i && self.inner@[k] == x),
                forall|x: u32|
                    gone@.contains(x) <==> (exited@.contains(x) && exists|k: int|
                        0 <= k < i && self.inner@[k] == x),
            decreases self.inner.len() - i,
        {
            let pid = self.inner[i];
            let mut j: usize = 0;
            let mut found = false;
            while j < exited.len()
                invariant
                    j <= exited.len(),
                    found == exists|k: int| 0 <= k < j && exited@[k] == pid,
                decreases exited.len() - j,
            {
                if exited[j] == pid {
                    found = true;
                }
                j = j + 1;
            }
            assert(found == exited@.contains(pid)) by {
                if exited@.contains(pid) {
                    let k = choose|k: int| 0 <= k < exited@.len() && exited@[k] == pid;
                    assert(exited@[k] == pid);
                }
            }
            let ghost kept_before = kept@;
            let ghost gone_before = gone@;
            if found {
                gone.push(pid);
            } else {
                kept.push(pid);
            }
            proof {
                lemma_pushed(kept_before, gone_before, kept@, gone@, self.inner@, exited@, i as int);
            }
            i = i + 1;
        }
        let ghost before = self.inner@;
        self.inner = kept;
        assert(self.inner@.to_set() =~= before.to_set().difference(exited@.to_set())) by {
            assert forall|x: u32| self.inner@.to_set().contains(x) <==> before.to_set().difference(
                exited@.to_set(),
            ).contains(x) by {
                if before.contains(x) {
                    let k = choose|k: int| 0 <= k < before.len() && before[k] == x;
                    assert(before[k] == x);
                }
            }
        }
        assert(gone@.to_set() =~= before.to_set().intersect(exited@.to_set())) by {
            assert forall|x: u32| gone@.to_set().contains(x) <==> before.to_set().intersect(
                exited@.to_set(),
            ).contains(x) by {
                if before.contains(x) {
                    let k = choose|k: int| 0 <= k < before.len() && before[k] == x;
                    assert(before[k] == x);
                }
            }
        }
        gone
    }
}

/// The processes that stay known when those of `exited` are found to have
/// ended.
pub open spec fn remaining(known: Set<u32>, exited: Set<u32>) -> Set<u32> {
    known.difference(exited)
}

/// The processes that are forgotten when those of `exited` are found to
/// have ended.
pub open spec fn reaped(known: Set<u32>, exited: Set<u32>) -> Set<u32> {
    known.intersect(exited)
}

/// A process that has ended is no longer known once it was reaped: one
/// round is enough.
pub proof fn lemma_reaped_at_once(known: Set<u32>, exited: Set<u32>, pid: u32)
    requires
        exited.contains(pid),
    ensures
        !remaining(known, exited).contains(pid),
{
}

/// No process is reaped twice: what a later round forgets was not
/// forgotten by an earlier one, and what was forgotten is not among those
/// that are asked again.
pub proof fn lemma_never_reaped_twice(known: Set<u32>, first: Set<u32>, second: Set<u32>)
    ensures
        reaped(remaining(known, first), second).disjoint(reaped(known, first)),
        remaining(known, first).disjoint(reaped(known, first)),
{
}

/// A process that has not ended stays known.
pub proof fn lemma_running_stays(known: Set<u32>, exited: Set<u32>, pid: u32)
    requires
        known.contains(pid),
        !exited.contains(pid),
    ensures
        remaining(known, exited).contains(pid),
{
}

/// One step of sorting the known ids into those kept and those gone.
proof fn lemma_pushed(
    kept_before: Seq<u32>,
    gone_before: Seq<u32>,
    kept: Seq<u32>,
    gone: Seq<u32>,
    inner: Seq<u32>,
    exited: Seq<u32>,
    i: int,
)
    requires
        0 <= i < inner.len(),
        inner.no_duplicates(),
        kept_before.no_duplicates(),
        gone_before.no_duplicates(),
        forall|x: u32|
            kept_before.contains(x) <==> (!exited.contains(x) && exists|k: int|
                0 <= k < i && inner[k] == x),
        forall|x: u32|
            gone_before.contains(x) <==> (exited.contains(x) && exists|k: int|
                0 <= k < i && inner[k] == x),
        exited.contains(inner[i]) ==> gone == gone_before.push(inner[i]) && kept == kept_before,
        !exited.contains(inner[i]) ==> kept == kept_before.push(inner[i]) && gone == gone_before,
    ensures
        kept.no_duplicates(),
        gone.no_duplicates(),
        forall|x: u32|
            kept.contains(x) <==> (!exited.contains(x) && exists|k: int|
                0 <= k < i + 1 && inner[k] == x),
        forall|x: u32|
            gone.contains(x) <==> (exited.contains(x) && exists|k: int|
                0 <= k < i + 1 && inner[k] == x),
{
    let pid = inner[i];
    assert(!kept_before.contains(pid) && !gone_before.contains(pid)) by {
        if kept_before.contains(pid) || gone_before.contains(pid) {
            let k = choose|k: int| 0 <= k < i && inner[k] == pid;
            assert(inner[k] == inner[i]);
        }
    }
    assert forall|x: u32|
        kept.contains(x) <==> (!exited.contains(x) && exists|k: int|
            0 <= k < i + 1 && inner[k] == x) by {
        if kept.contains(x) {
            let j = choose|j: int| 0 <= j < kept.len() && kept[j] == x;
            if j < kept_before.len() {
                assert(kept_before[j] == x);
                assert(kept_before.contains(x));
                let k = choose|k: int| 0 <= k < i && inner[k] == x;
                assert(0 <= k < i + 1 && inner[k] == x);
            } else {
                assert(inner[i] == x);
            }
        }
        if !exited.contains(x) && exists|k: int| 0 <= k < i + 1 && inner[k] == x {
            let k = choose|k: int| 0 <= k < i + 1 && inner[k] == x;
            if k < i {
                assert(kept_before.contains(x));
                let j = choose|j: int| 0 <= j < kept_before.len() && kept_before[j] == x;
                assert(kept[j] == x);
            } else {
                assert(kept[kept_before.len() as int] == x);
            }
        }
    }
    assert forall|x: u32|
        gone.contains(x) <==> (exited.contains(x) && exists|k: int|
            0 <= k < i + 1 && inner[k] == x) by {
        if gone.contains(x) {
            let j = choose|j: int| 0 <= j < gone.len() && gone[j] == x;
            if j < gone_before.len() {
                assert(gone_before[j] == x);
                assert(gone_before.contains(x));
                let k = choose|k: int| 0 <= k < i && inner[k] == x;
                assert(0 <= k < i + 1 && inner[k] == x);
            } else {
                assert(inner[i] == x);
            }
        }
        if exited.contains(x) && exists|k: int| 0 <= k < i + 1 && inner[k] == x {
            let k = choose|k: int| 0 <= k < i + 1 && inner[k] == x;
            if k < i {
                assert(gone_before.contains(x));
                let j = choose|j: int| 0 <= j < gone_before.len() && gone_before[j] == x;
                assert(gone[j] == x);
            } else {
                assert(gone[gone_before.len() as int] == x);
            }
        }
    }
    assert(kept.no_duplicates()) by {
        assert forall|a: int, b: int| 0 <= a < kept.len() && 0 <= b < kept.len() && a != b implies kept[a]
            != kept[b] by {
            if a < kept_before.len() {
                assert(kept_before.contains(kept_before[a]));
            }
            if b < kept_before.len() {
                assert(kept_before.contains(kept_before[b]));
            }
        }
    }
    assert(gone.no_duplicates()) by {
        assert forall|a: int, b: int| 0 <= a < gone.len() && 0 <= b < gone.len() && a != b implies gone[a]
            != gone[b] by {
            if a < gone_before.len() {
                assert(gone_before.contains(gone_before[a]));
            }
            if b < gone_before.len() {
                assert(gone_before.contains(gone_before[b]));
            }
        }
    }
}

} // verus!
