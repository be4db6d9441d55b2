//! A store that issues its own monotonically increasing ids: deletion
//! invalidates ids and they are never reused.

use vstd::prelude::*;

verus! {

/// An id type the holder can issue: a counter with a numeric view.
pub trait HolderId: Sized + Copy {
    spec fn key_spec(&self) -> int;

    fn next(&self) -> (r: Self)
        requires
            self.key_spec() < 0x7FFF_FFFF,
        ensures
            r.key_spec() == self.key_spec() + 1,
    ;

    fn initial() -> (r: Self)
        ensures
            r.key_spec() == 1,
    ;

    fn key_eq(&self, other: &Self) -> (r: bool)
        ensures
            r == (self.key_spec() == other.key_spec()),
    ;
}

/// Whether some entry carries the key `k`.
pub open spec fn has_key<K: HolderId, V>(s: Seq<(K, V)>, k: int) -> bool {
    exists|i: int| 0 <= i < s.len() && (#[trigger] s[i]).0.key_spec() == k
}

/// The index of the entry with key `k`.
pub open spec fn key_idx<K: HolderId, V>(s: Seq<(K, V)>, k: int) -> int
    decreases s.len(),
{
    if s.len() == 0 {
        0
    } else if s[0].0.key_spec() == k {
        0
    } else {
        1 + key_idx(s.drop_first(), k)
    }
}

/// When entry `i` carries `k` and no earlier entry does, `i` is the first.
pub proof fn lemma_key_idx<K: HolderId, V>(s: Seq<(K, V)>, k: int, i: int)
    requires
        0 <= i < s.len(),
        s[i].0.key_spec() == k,
        forall|j: int| 0 <= j < i ==> (#[trigger] s[j]).0.key_spec() != k,
    ensures
        key_idx(s, k) == i,
    decreases s.len(),
{
    if s[0].0.key_spec() == k {
        assert(i == 0);
    } else {
        assert(s.drop_first()[i - 1] == s[i]);
        assert(forall|j: int| 0 <= j < i - 1 ==> (#[trigger] s.drop_first()[j]) == s[j + 1]);
        lemma_key_idx(s.drop_first(), k, i - 1);
    }
}

/// A valid first index: it is in bounds and carries the key.
pub proof fn lemma_key_idx_valid<K: HolderId, V>(s: Seq<(K, V)>, k: int)
    requires
        has_key(s, k),
    ensures
        0 <= key_idx(s, k) < s.len(),
        s[key_idx(s, k)].0.key_spec() == k,
    decreases s.len(),
{
    if s.len() > 0 && s[0].0.key_spec() != k {
        assert(forall|j: int|
            0 <= j < s.drop_first().len() ==> (#[trigger] s.drop_first()[j]) == s[j + 1]);
        assert(has_key(s.drop_first(), k)) by {
            let i = choose|i: int| 0 <= i < s.len() && (#[trigger] s[i]).0.key_spec() == k;
            assert(s.drop_first()[i - 1] == s[i]);
            assert((#[trigger] s.drop_first()[i - 1]).0.key_spec() == k);
        }
        lemma_key_idx_valid(s.drop_first(), k);
    }
}

/// A store of values under ids it issues itself.
#[derive(Debug)]
pub struct Holder<K, V> {
    pub entries: Vec<(K, V)>,
    pub next_key: K,
}

impl<K: HolderId, V> Holder<K, V> {
    pub open spec fn entries_spec(&self) -> Seq<(K, V)> {
        self.entries@
    }

    pub open spec fn next_key_spec(&self) -> int {
        self.next_key.key_spec()
    }

    /// Stored keys are distinct and below the next key to issue.
    pub open spec fn wf(&self) -> bool {
        &&& forall|i: int, j: int|
            0 <= i < j < self.entries@.len() ==> (#[trigger] self.entries@[i]).0.key_spec() != (
            #[trigger] self.entries@[j]).0.key_spec()
        &&& forall|i: int|
            0 <= i < self.entries@.len() ==> (#[trigger] self.entries@[i]).0.key_spec()
                < self.next_key.key_spec()
        &&& 1 <= self.next_key.key_spec()
    }

    pub fn new() -> (h: Holder<K, V>)
        ensures
            h.wf(),
            h.entries_spec().len() == 0,
            h.next_key_spec() == 1,
    {
        Holder { entries: Vec::new(), next_key: K::initial() }
    }

    /// Stores `value` under a fresh id and hands the id back.
    pub fn insert(&mut self, value: V) -> (k: K)
        requires
            old(self).wf(),
            old(self).next_key_spec() < 0x7FFF_FFFF,
        ensures
            final(self).wf(),
            k.key_spec() == old(self).next_key_spec(),
            final(self).entries_spec() == old(self).entries_spec().push((k, value)),
            final(self).next_key_spec() == old(self).next_key_spec() + 1,
            !has_key(old(self).entries_spec(), k.key_spec()),
    {
        let key = self.next_key;
        self.next_key = key.next();
        self.entries.push((key, value));
        proof {
            if has_key(old(self).entries_spec(), key.key_spec()) {
                let i = choose|i: int|
                    0 <= i < old(self).entries_spec().len() && (#[trigger] old(self).entries_spec()[i]).0.key_spec() == key.key_spec();
                assert(old(self).entries_spec()[i].0.key_spec() < key.key_spec());
            }
        }
        key
    }

    pub fn contains_key(&self, key: &K) -> (r: bool)
        ensures
            r == has_key(self.entries_spec(), key.key_spec()),
    {
        let mut i: usize = 0;
        while i < self.entries.len()
            invariant
                0 <= i <= self.entries@.len(),
                forall|j: int|
                    0 <= j < i ==> (#[trigger] self.entries@[j]).0.key_spec() != key.key_spec(),
            decreases self.entries@.len() - i,
        {
            if self.entries[i].0.key_eq(key) {
                proof {
                    assert((#[trigger] self.entries@[i as int]).0.key_spec() == key.key_spec());
                }
                return true;
            }
            i = i + 1;
        }
        false
    }

    /// The stored value under `key`, if the id is still valid.
    pub fn get(&self, key: &K) -> (r: Option<&V>)
        ensures
            match r {
                Some(v) => has_key(self.entries_spec(), key.key_spec()) && *v
                    == self.entries_spec()[key_idx(self.entries_spec(), key.key_spec())].1,
                None => !has_key(self.entries_spec(), key.key_spec()),
            },
    {
        let mut i: usize = 0;
        while i < self.entries.len()
            invariant
                0 <= i <= self.entries@.len(),
                forall|j: int|
                    0 <= j < i ==> (#[trigger] self.entries@[j]).0.key_spec() != key.key_spec(),
            decreases self.entries@.len() - i,
        {
            if self.entries[i].0.key_eq(key) {
                proof {
                    assert((#[trigger] self.entries@[i as int]).0.key_spec() == key.key_spec());
                    lemma_key_idx(self.entries@, key.key_spec(), i as int);
                }
                return Some(&self.entries[i].1);
            }
            i = i + 1;
        }
        None
    }

    /// Replaces the value under `key`; does nothing for a stale id.
    pub fn update(&mut self, key: &K, value: V) -> (r: bool)
        requires
            old(self).wf(),
        ensures
            final(self).wf(),
            r == has_key(old(self).entries_spec(), key.key_spec()),
            final(self).next_key_spec() == old(self).next_key_spec(),
            r ==> final(self).entries_spec() == old(self).entries_spec().update(
                key_idx(old(self).entries_spec(), key.key_spec()),
                (old(self).entries_spec()[key_idx(old(self).entries_spec(), key.key_spec())].0,
                value),
            ),
            !r ==> final(self).entries_spec() == old(self).entries_spec(),
    {
        let mut i: usize = 0;
        while i < self.entries.len()
            invariant
                0 <= i <= self.entries@.len(),
                self.entries@ == old(self).entries_spec(),
                self.next_key == old(self).next_key,
                old(self).wf(),
                forall|j: int|
                    0 <= j < i ==> (#[trigger] self.entries@[j]).0.key_spec() != key.key_spec(),
            decreases self.entries@.len() - i,
        {
            if self.entries[i].0.key_eq(key) {
                proof {
                    assert((#[trigger] self.entries@[i as int]).0.key_spec() == key.key_spec());
                    lemma_key_idx(self.entries@, key.key_spec(), i as int);
                }
                let stored_key = self.entries[i].0;
                self.entries.set(i, (stored_key, value));
                proof {
                    assert(self.wf()) by {
                        assert(forall|a: int|
                            0 <= a < self.entries@.len() ==> (#[trigger] self.entries@[a]).0
                                == old(self).entries_spec()[a].0);
                    }
                }
                return true;
            }
            i = i + 1;
        }
        false
    }

    /// Removes and returns the value under `key`, invalidating the id.
    pub fn remove(&mut self, key: &K) -> (r: Option<V>)
        requires
            old(self).wf(),
        ensures
            final(self).wf(),
            final(self).next_key_spec() == old(self).next_key_spec(),
            match r {
                Some(_) => has_key(old(self).entries_spec(), key.key_spec()) && final(self).entries_spec() == old(self).entries_spec().remove(
                    key_idx(old(self).entries_spec(), key.key_spec()),
                ),
                None => !has_key(old(self).entries_spec(), key.key_spec()) && final(self).entries_spec() == old(self).entries_spec(),
            },
            !has_key(final(self).entries_spec(), key.key_spec()),
    {
        let mut i: usize = 0;
        while i < self.entries.len()
            invariant
                0 <= i <= self.entries@.len(),
                self.entries@ == old(self).entries_spec(),
                self.next_key == old(self).next_key,
                old(self).wf(),
                forall|j: int|
                    0 <= j < i ==> (#[trigger] self.entries@[j]).0.key_spec() != key.key_spec(),
            decreases self.entries@.len() - i,
        {
            if self.entries[i].0.key_eq(key) {
                proof {
                    assert((#[trigger] self.entries@[i as int]).0.key_spec() == key.key_spec());
                    lemma_key_idx(self.entries@, key.key_spec(), i as int);
                }
                let (_, value) = self.entries.remove(i);
                proof {
                    assert forall|a: int| 0 <= a < self.entries@.len() implies (
                    #[trigger] self.entries@[a]).0.key_spec() < self.next_key.key_spec() by {
                        if a < i {
                            assert(self.entries@[a] == old(self).entries_spec()[a]);
                        } else {
                            assert(self.entries@[a] == old(self).entries_spec()[a + 1]);
                        }
                    }
                    assert forall|a: int, b: int|
                        0 <= a < b < self.entries@.len() implies (
                    #[trigger] self.entries@[a]).0.key_spec() != (
                    #[trigger] self.entries@[b]).0.key_spec() by {
                        let oa = if a < i {
                            a
                        } else {
                            a + 1
                        };
                        let ob = if b < i {
                            b
                        } else {
                            b + 1
                        };
                        assert(self.entries@[a] == old(self).entries_spec()[oa]);
                        assert(self.entries@[b] == old(self).entries_spec()[ob]);
                    }
                    if has_key(self.entries@, key.key_spec()) {
                        let j = choose|j: int|
                            0 <= j < self.entries@.len() && (#[trigger] self.entries@[j]).0.key_spec()
                                == key.key_spec();
                        let oj = if j < i {
                            j
                        } else {
                            j + 1
                        };
                        assert(old(self).entries_spec()[oj].0.key_spec() == key.key_spec());
                        assert(old(self).entries_spec()[i as int].0.key_spec() == key.key_spec());
                    }
                }
                return Some(value);
            }
            i = i + 1;
        }
        None
    }

    /// How many values are stored.
    pub fn len(&self) -> (r: usize)
        ensures
            r == self.entries_spec().len(),
    {
        self.entries.len()
    }

    /// The id stored at position `i` of the iteration order.
    pub fn key_at(&self, i: usize) -> (k: K)
        requires
            i < self.entries_spec().len(),
        ensures
            k == self.entries_spec()[i as int].0,
    {
        self.entries[i].0
    }

    /// The value stored at position `i` of the iteration order.
    pub fn value_at(&self, i: usize) -> (v: &V)
        requires
            i < self.entries_spec().len(),
        ensures
            *v == self.entries_spec()[i as int].1,
    {
        &self.entries[i].1
    }

    /// Replaces the value at position `i` of the iteration order.
    pub fn set_value_at(&mut self, i: usize, value: V)
        requires
            old(self).wf(),
            i < old(self).entries_spec().len(),
        ensures
            final(self).wf(),
            final(self).next_key_spec() == old(self).next_key_spec(),
            final(self).entries_spec() == old(self).entries_spec().update(
                i as int,
                (old(self).entries_spec()[i as int].0, value),
            ),
    {
        let key = self.entries[i].0;
        self.entries.set(i, (key, value));
        proof {
            assert(self.wf()) by {
                assert(forall|a: int|
                    0 <= a < self.entries@.len() ==> (#[trigger] self.entries@[a]).0 == old(self).entries_spec()[a].0);
            }
        }
    }

    /// Takes the entry at position `i` out of the store.
    pub fn remove_at(&mut self, i: usize) -> (r: (K, V))
        requires
            old(self).wf(),
            i < old(self).entries_spec().len(),
        ensures
            final(self).wf(),
            r == old(self).entries_spec()[i as int],
            final(self).entries_spec() == old(self).entries_spec().remove(i as int),
            final(self).next_key_spec() == old(self).next_key_spec(),
            !has_key(final(self).entries_spec(), r.0.key_spec()),
    {
        let entry = self.entries.remove(i);
        proof {
            let olds = old(self).entries_spec();
            assert forall|a: int, b: int|
                0 <= a < b < self.entries@.len() implies (#[trigger] self.entries@[a]).0.key_spec()
                != (#[trigger] self.entries@[b]).0.key_spec() by {
                let oa = if a < i {
                    a
                } else {
                    a + 1
                };
                let ob = if b < i {
                    b
                } else {
                    b + 1
                };
                assert(self.entries@[a] == olds[oa]);
                assert(self.entries@[b] == olds[ob]);
            }
            assert forall|a: int| 0 <= a < self.entries@.len() implies (
            #[trigger] self.entries@[a]).0.key_spec() < self.next_key.key_spec() by {
                let oa = if a < i {
                    a
                } else {
                    a + 1
                };
                assert(self.entries@[a] == olds[oa]);
            }
            if has_key(self.entries@, entry.0.key_spec()) {
                let j = choose|j: int|
                    0 <= j < self.entries@.len() && (#[trigger] self.entries@[j]).0.key_spec()
                        == entry.0.key_spec();
                let oj = if j < i {
                    j
                } else {
                    j + 1
                };
                assert(self.entries@[j] == olds[oj]);
                assert(olds[oj].0.key_spec() == olds[i as int].0.key_spec());
            }
        }
        entry
    }

    /// Puts an entry back at position `i` of the store.
    pub fn insert_at(&mut self, i: usize, key: K, value: V)
        requires
            old(self).wf(),
            i <= old(self).entries_spec().len(),
            !has_key(old(self).entries_spec(), key.key_spec()),
            key.key_spec() < old(self).next_key_spec(),
        ensures
            final(self).wf(),
            final(self).entries_spec() == old(self).entries_spec().insert(i as int, (key, value)),
            final(self).next_key_spec() == old(self).next_key_spec(),
    {
        self.entries.insert(i, (key, value));
        proof {
            let olds = old(self).entries_spec();
            assert forall|a: int, b: int|
                0 <= a < b < self.entries@.len() implies (#[trigger] self.entries@[a]).0.key_spec()
                != (#[trigger] self.entries@[b]).0.key_spec() by {
                if a != i && b != i {
                    let oa = if a < i {
                        a
                    } else {
                        a - 1
                    };
                    let ob = if b < i {
                        b
                    } else {
                        b - 1
                    };
                    assert(self.entries@[a] == olds[oa]);
                    assert(self.entries@[b] == olds[ob]);
                } else if a == i {
                    let ob = if b < i {
                        b
                    } else {
                        b - 1
                    };
                    assert(self.entries@[b] == olds[ob]);
                    assert((#[trigger] olds[ob]).0.key_spec() != key.key_spec());
                } else {
                    let oa = if a < i {
                        a
                    } else {
                        a - 1
                    };
                    assert(self.entries@[a] == olds[oa]);
                    assert((#[trigger] olds[oa]).0.key_spec() != key.key_spec());
                }
            }
            assert forall|a: int| 0 <= a < self.entries@.len() implies (
            #[trigger] self.entries@[a]).0.key_spec() < self.next_key.key_spec() by {
                if a != i {
                    let oa = if a < i {
                        a
                    } else {
                        a - 1
                    };
                    assert(self.entries@[a] == olds[oa]);
                }
            }
        }
    }

    /// Clears the store; issued ids stay invalid.
    pub fn clear(&mut self)
        requires
            old(self).wf(),
        ensures
            final(self).wf(),
            final(self).entries_spec().len() == 0,
            final(self).next_key_spec() == old(self).next_key_spec(),
    {
        self.entries.clear();
    }
}

impl HolderId for usize {
    open spec fn key_spec(&self) -> int {
        *self as int
    }

    fn next(&self) -> (r: usize) {
        *self + 1
    }

    fn initial() -> (r: usize) {
        1
    }

    fn key_eq(&self, other: &usize) -> (r: bool) {
        *self == *other
    }
}

} // verus!
