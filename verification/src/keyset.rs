//! A small set of key codes, kept in the order in which they came.

use vstd::prelude::*;

verus! {

#[derive(Debug)]
pub struct KeySet {
    items: Vec<u32>,
}

impl View for KeySet {
    type V = Set<u32>;

    closed spec fn view(&self) -> Set<u32> {
        self.items@.to_set()
    }
}

impl KeySet {
    /// The empty set.
    pub fn new() -> (out: Self)
        ensures
            out@ == Set::<u32>::empty(),
    {
        let out = KeySet { items: Vec::new() };
        assert(out.items@.to_set() =~= Set::<u32>::empty());
        out
    }

    pub fn contains(&self, code: u32) -> (r: bool)
        ensures
            r == self@.contains(code),
    {
        let mut i: usize = 0;
        while i < self.items.len()
            invariant
                i <= self.items.len(),
                forall|k: int| 0 <= k < i ==> self.items@[k] != code,
            decreases self.items.len() - i,
        {
            if self.items[i] == code {
                assert(self.items@.contains(code));
                return true;
            }
            i = i + 1;
        }
        assert(!self.items@.contains(code));
        false
    }

    pub fn is_empty(&self) -> (r: bool)
        ensures
            r == (self@ == Set::<u32>::empty()),
    {
        if self.items.len() == 0 {
            assert(self.items@.to_set() =~= Set::<u32>::empty());
            true
        } else {
            assert(self.items@.contains(self.items@[0]));
            assert(self.items@.to_set().contains(self.items@[0]));
            false
        }
    }

    /// Whether the set holds `code` and nothing else.
    pub fn is_only(&self, code: u32) -> (r: bool)
        ensures
            r == (self@ == set![code]),
    {
        if self.items.len() == 0 {
            assert(!self.items@.to_set().contains(code));
            assert(set![code].contains(code));
            return false;
        }
        let mut i: usize = 0;
        while i < self.items.len()
            invariant
                i <= self.items.len(),
                self.items.len() > 0,
                forall|k: int| 0 <= k < i ==> self.items@[k] == code,
            decreases self.items.len() - i,
        {
            if self.items[i] != code {
                let other = self.items[i];
                assert(self.items@.contains(other));
                assert(self.items@.to_set().contains(other));
                assert(!set![code].contains(other));
                return false;
            }
            i = i + 1;
        }
        assert(self.items@.contains(self.items@[0]));
        assert(self.items@.to_set() =~= set![code]);
        true
    }

    /// Puts `code` into the set.
    pub fn insert(&mut self, code: u32)
        ensures
            final(self)@ == old(self)@.insert(code),
    {
        if !self.contains(code) {
            let ghost before = self.items@;
            self.items.push(code);
            assert(self.items@.to_set() =~= before.to_set().insert(code)) by {
                assert forall|x: u32| self.items@.to_set().contains(x) <==> before.to_set().insert(
                    code,
                ).contains(x) by {
                    if self.items@.contains(x) {
                        let k = choose|k: int| 0 <= k < self.items@.len() && self.items@[k] == x;
                        if k < before.len() {
                            assert(before[k] == x);
                            assert(before.contains(x));
                        }
                    }
                    if before.contains(x) {
                        let k = choose|k: int| 0 <= k < before.len() && before[k] == x;
                        assert(self.items@[k] == x);
                    }
                    if x == code {
                        assert(self.items@[before.len() as int] == x);
                    }
                }
            }
        } else {
            assert(self@ =~= self@.insert(code));
        }
    }

    /// Takes `code` out of the set.
    pub fn remove(&mut self, code: u32)
        ensures
            final(self)@ == old(self)@.remove(code),
    {
        let mut kept: Vec<u32> = Vec::new();
        let mut i: usize = 0;
        while i < self.items.len()
            invariant
                i <= self.items.len(),
                forall|x: u32|
                    kept@.contains(x) <==> (x != code && exists|k: int|
                        0 <= k < i && self.items@[k] == x),
            decreases self.items.len() - i,
        {
            let item = self.items[i];
            let ghost before = kept@;
            if item != code {
                kept.push(item);
                assert forall|x: u32|
                    kept@.contains(x) <==> (x != code && exists|k: int|
                        0 <= k < i + 1 && self.items@[k] == x) by {
                    if kept@.contains(x) {
                        let j = choose|j: int| 0 <= j < kept@.len() && kept@[j] == x;
                        if j < before.len() {
                            assert(before[j] == x);
                            assert(before.contains(x));
                        } else {
                            assert(self.items@[i as int] == x);
                        }
                    }
                    if x != code && exists|k: int| 0 <= k < i + 1 && self.items@[k] == x {
                        let k = choose|k: int| 0 <= k < i + 1 && self.items@[k] == x;
                        if k < i {
                            assert(before.contains(x));
                            let j = choose|j: int| 0 <= j < before.len() && before[j] == x;
                            assert(kept@[j] == x);
                        } else {
                            assert(kept@[before.len() as int] == x);
                        }
                    }
                }
            }
            i = i + 1;
        }
        let ghost old_items = self.items@;
        self.items = kept;
        assert(self.items@.to_set() =~= old_items.to_set().remove(code)) by {
            assert forall|x: u32| self.items@.to_set().contains(x) <==> old_items.to_set().remove(
                code,
            ).contains(x) by {
                if old_items.contains(x) {
                    let k = choose|k: int| 0 <= k < old_items.len() && old_items[k] == x;
                    assert(old_items[k] == x);
                }
            }
        }
    }

    /// Puts every member of `other` into the set.
    pub fn extend(&mut self, other: &KeySet)
        ensures
            final(self)@ == old(self)@.union(other@),
    {
        let mut i: usize = 0;
        while i < other.items.len()
            invariant
                i <= other.items.len(),
                forall|x: u32|
                    self@.contains(x) <==> (old(self)@.contains(x) || exists|k: int|
                        0 <= k < i && other.items@[k] == x),
            decreases other.items.len() - i,
        {
            self.insert(other.items[i]);
            i = i + 1;
        }
        assert(self@ =~= old(self)@.union(other@)) by {
            assert forall|x: u32| self@.contains(x) <==> old(self)@.union(other@).contains(x) by {
                if other.items@.contains(x) {
                    let k = choose|k: int| 0 <= k < other.items@.len() && other.items@[k] == x;
                    assert(other.items@[k] == x);
                }
            }
        }
    }

    /// Whether every member of the set is among `codes` and every code is in
    /// the set.
    pub fn holds_exactly(&self, codes: &Vec<u32>) -> (r: bool)
        ensures
            r == (self@ == codes@.to_set()),
    {
        let mut i: usize = 0;
        while i < self.items.len()
            invariant
                i <= self.items.len(),
                forall|k: int| 0 <= k < i ==> codes@.contains(self.items@[k]),
            decreases self.items.len() - i,
        {
            let item = self.items[i];
            let mut j: usize = 0;
            let mut found = false;
            while j < codes.len()
                invariant
                    j <= codes.len(),
                    found == exists|k: int| 0 <= k < j && codes@[k] == item,
                decreases codes.len() - j,
            {
                if codes[j] == item {
                    found = true;
                }
                j = j + 1;
            }
            if !found {
                assert(!codes@.contains(item));
                assert(self.items@.contains(item));
                assert(self@.contains(item));
                assert(!codes@.to_set().contains(item));
                return false;
            }
            let ghost k = choose|k: int| 0 <= k < codes@.len() && codes@[k] == item;
            assert(codes@[k] == item);
            i = i + 1;
        }
        let mut j: usize = 0;
        while j < codes.len()
            invariant
                j <= codes.len(),
                forall|k: int| 0 <= k < j ==> self@.contains(codes@[k]),
            decreases codes.len() - j,
        {
            if !self.contains(codes[j]) {
                assert(codes@.contains(codes@[j as int]));
                assert(codes@.to_set().contains(codes@[j as int]));
                return false;
            }
            j = j + 1;
        }
        assert(self@ =~= codes@.to_set()) by {
            assert forall|x: u32| self@.contains(x) <==> codes@.to_set().contains(x) by {
                if self.items@.contains(x) {
                    let k = choose|k: int| 0 <= k < self.items@.len() && self.items@[k] == x;
                    assert(codes@.contains(self.items@[k]));
                }
                if codes@.contains(x) {
                    let k = choose|k: int| 0 <= k < codes@.len() && codes@[k] == x;
                    assert(self@.contains(codes@[k]));
                }
            }
        }
        true
    }
}

} // verus!
