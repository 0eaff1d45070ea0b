//! A map keyed by [`Use`] that keeps its entries in the order in which
//! they were inserted.
use vstd::prelude::*;
use rustc_hash::FxHashMap;
use crate::fx::{fx_get, fx_insert, fx_new};
use crate::print::uses::Use;

verus! {

/// Whether some entry of `s` has the key `k`.
pub open spec fn has_key<V>(s: Seq<(Use, V)>, k: Use) -> bool {
    exists|i: int| 0 <= i < s.len() && (#[trigger] s[i]).0 == k
}

/// Whether no two entries of `s` have the same key.
pub open spec fn distinct_keys<V>(s: Seq<(Use, V)>) -> bool {
    forall|i: int, j: int|
        0 <= i < s.len() && 0 <= j < s.len() && i != j ==> (#[trigger] s[i]).0 != (
        #[trigger] s[j]).0
}

/// Whether every key of `s` that is an interned definition has an index
/// below `len`.
pub open spec fn keys_below<V>(s: Seq<(Use, V)>, len: nat) -> bool {
    forall|i: int|
        0 <= i < s.len() ==> ((#[trigger] s[i]).0 matches Use::CxInterned(x) ==> x.index() < len)
}

/// The position of the entry with key `k`.
pub open spec fn index_of<V>(s: Seq<(Use, V)>, k: Use) -> int
    recommends
        has_key(s, k),
{
    choose|i: int| 0 <= i < s.len() && (#[trigger] s[i]).0 == k
}

/// The value under key `k`, if there is one.
pub open spec fn value_of<V>(s: Seq<(Use, V)>, k: Use) -> Option<V> {
    if has_key(s, k) {
        Some(s[index_of(s, k)].1)
    } else {
        None
    }
}

/// Where keys are distinct, an entry with key `k` is at `index_of(s, k)`.
pub proof fn lemma_index_of<V>(s: Seq<(Use, V)>, k: Use, i: int)
    requires
        distinct_keys(s),
        0 <= i < s.len(),
        s[i].0 == k,
    ensures
        has_key(s, k),
        index_of(s, k) == i,
        value_of(s, k) == Some(s[i].1),
{
    assert(has_key(s, k));
    let j = index_of(s, k);
    assert(s[j].0 == k);
}

/// Whether `positions` says for each of the first `count` entries of `s`
/// where it stands, and lists nothing else.
pub open spec fn positions_of<V>(positions: Map<u128, usize>, s: Seq<(Use, V)>, count: int) -> bool {
    &&& forall|i: int|
        0 <= i < count ==> positions.contains_key((#[trigger] s[i]).0.code())
            && positions[s[i].0.code()] == i
    &&& forall|c: u128| #[trigger]
        positions.contains_key(c) ==> positions[c] < count && s[positions[c] as int].0.code() == c
}

/// An insertion-ordered map from uses to values.
///
/// The entries are kept in a vector; a hash map from the code of each
/// key to its position finds a key without going through the entries.
#[derive(Debug)]
pub struct UseMap<V> {
    pub entries: Vec<(Use, V)>,
    pub positions: FxHashMap<u128, usize>,
}

impl<V> View for UseMap<V> {
    type V = Seq<(Use, V)>;

    open spec fn view(&self) -> Seq<(Use, V)> {
        self.entries@
    }
}

impl<V: Copy> UseMap<V> {
    /// Whether no key occurs twice, and the position of each key is
    /// recorded.
    pub open spec fn wf(&self) -> bool {
        &&& distinct_keys(self@)
        &&& positions_of(self.positions@, self@, self@.len() as int)
    }

    /// The empty map.
    pub fn new() -> (r: Self)
        ensures
            r@ == Seq::<(Use, V)>::empty(),
            r.wf(),
    {
        UseMap { entries: Vec::new(), positions: fx_new() }
    }

    /// The number of entries.
    pub fn len(&self) -> (r: usize)
        ensures
            r == self@.len(),
    {
        self.entries.len()
    }

    /// The key of entry `i`.
    pub fn key_at(&self, i: usize) -> (r: Use)
        requires
            i < self@.len(),
        ensures
            r == self@[i as int].0,
    {
        self.entries[i].0
    }

    /// The value of entry `i`.
    pub fn value_at(&self, i: usize) -> (r: V)
        requires
            i < self@.len(),
        ensures
            r == self@[i as int].1,
    {
        self.entries[i].1
    }

    /// The position of the entry with key `k`, if there is one.
    pub fn find(&self, k: Use) -> (r: Option<usize>)
        requires
            self.wf(),
        ensures
            r is Some == has_key(self@, k),
            r matches Some(i) ==> i < self@.len() && self@[i as int].0 == k && i == index_of(
                self@,
                k,
            ),
    {
        match fx_get(&self.positions, k.get_code()) {
            Some(i) => {
                proof {
                    Use::lemma_code_injective(self@[i as int].0, k);
                    lemma_index_of(self@, k, i as int);
                }
                Some(i)
            },
            None => {
                proof {
                    if has_key(self@, k) {
                        let i = index_of(self@, k);
                        assert(self.positions@.contains_key(self@[i].0.code()));
                    }
                }
                None
            },
        }
    }

    /// The value under key `k`, if there is one.
    pub fn get(&self, k: Use) -> (r: Option<V>)
        requires
            self.wf(),
        ensures
            r == value_of(self@, k),
    {
        match self.find(k) {
            Some(i) => Some(self.entries[i].1),
            None => None,
        }
    }

    /// Replaces the value of entry `i`.
    pub fn set_value(&mut self, i: usize, v: V)
        requires
            i < old(self)@.len(),
        ensures
            final(self)@ == old(self)@.update(i as int, (old(self)@[i as int].0, v)),
            old(self).wf() ==> final(self).wf(),
    {
        let k = self.entries[i].0;
        self.entries.set(i, (k, v));
        proof {
            if old(self).wf() {
                assert forall|j: int| 0 <= j < self@.len() implies self.positions@.contains_key(
                    (#[trigger] self@[j]).0.code(),
                ) && self.positions@[self@[j].0.code()] == j by {
                    assert(self@[j].0 == old(self)@[j].0);
                }
                assert forall|c: u128| #[trigger]
                    self.positions@.contains_key(c) implies self.positions@[c] < self@.len()
                    && self@[self.positions@[c] as int].0.code() == c by {
                    assert(self@[self.positions@[c] as int].0 == old(self)@[self.positions@[c] as int].0);
                }
            }
        }
    }

    /// Adds an entry at the end.
    pub fn push(&mut self, k: Use, v: V)
        requires
            old(self).wf(),
            !has_key(old(self)@, k),
        ensures
            final(self)@ == old(self)@.push((k, v)),
            final(self).wf(),
    {
        let at: usize = self.entries.len();
        self.entries.push((k, v));
        fx_insert(&mut self.positions, k.get_code(), at);
        proof {
            assert forall|j: int| 0 <= j < self@.len() implies self.positions@.contains_key(
                (#[trigger] self@[j]).0.code(),
            ) && self.positions@[self@[j].0.code()] == j by {
                if j < at {
                    assert(self@[j] == old(self)@[j]);
                    if self@[j].0.code() == k.code() {
                        Use::lemma_code_injective(self@[j].0, k);
                    }
                }
            }
            assert forall|c: u128| #[trigger]
                self.positions@.contains_key(c) implies self.positions@[c] < self@.len()
                && self@[self.positions@[c] as int].0.code() == c by {
                if c != k.code() {
                    assert(old(self).positions@.contains_key(c));
                    assert(self@[self.positions@[c] as int] == old(self)@[self.positions@[c] as int]);
                }
            }
            assert forall|i: int, j: int|
                0 <= i < self@.len() && 0 <= j < self@.len() && i != j implies (
            #[trigger] self@[i]).0 != (#[trigger] self@[j]).0 by {
                if i < at {
                    assert(self@[i] == old(self)@[i]);
                }
                if j < at {
                    assert(self@[j] == old(self)@[j]);
                }
            }
        }
    }

    /// Takes entry `i` out; the entries after it move up by one.
    pub fn remove(&mut self, i: usize) -> (r: (Use, V))
        requires
            old(self).wf(),
            i < old(self)@.len(),
        ensures
            r == old(self)@[i as int],
            final(self)@ == old(self)@.remove(i as int),
            final(self).wf(),
    {
        let r = self.entries.remove(i);
        assert(distinct_keys(self@)) by {
            assert forall|a: int, b: int|
                0 <= a < self@.len() && 0 <= b < self@.len() && a != b implies (
            #[trigger] self@[a]).0 != (#[trigger] self@[b]).0 by {
                let before = old(self)@;
                let from = |n: int|
                    if n < i {
                        n
                    } else {
                        n + 1
                    };
                assert(self@[a] == before[from(a)]);
                assert(self@[b] == before[from(b)]);
            }
        }
        self.positions = fx_new();
        let mut j: usize = 0;
        while j < self.entries.len()
            invariant
                0 <= j <= self.entries.len(),
                self@ == old(self)@.remove(i as int),
                distinct_keys(self@),
                positions_of(self.positions@, self@, j as int),
            decreases self.entries.len() - j,
        {
            let ghost before = self.positions@;
            fx_insert(&mut self.positions, self.entries[j].0.get_code(), j);
            proof {
                let k = self@[j as int].0;
                assert forall|n: int| 0 <= n < j + 1 implies self.positions@.contains_key(
                    (#[trigger] self@[n]).0.code(),
                ) && self.positions@[self@[n].0.code()] == n by {
                    if n < j && self@[n].0.code() == k.code() {
                        Use::lemma_code_injective(self@[n].0, k);
                    }
                }
                assert forall|c: u128| #[trigger]
                    self.positions@.contains_key(c) implies self.positions@[c] < j + 1
                    && self@[self.positions@[c] as int].0.code() == c by {
                    if c != k.code() {
                        assert(before.contains_key(c));
                    }
                }
            }
            j += 1;
        }
        r
    }
}

} // verus!
