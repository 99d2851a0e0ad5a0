//! An owned map from 64-bit handles to values.
//!
//! One instance backs each platform's pending-request table (response handle
//! to completion channel) and another backs the platform registry (platform
//! handle to platform). The representation is a vector of entries with
//! pairwise-distinct keys; the abstraction is a mathematical `Map`.

use vstd::map::*;
use vstd::prelude::*;

verus! {

/// A map from 64-bit handles to owned values, viewed as a `Map<i64, T>`.
pub struct HandleMap<T> {
    entries: Vec<(i64, T)>,
}

/// The keys of `s` are pairwise distinct.
spec fn keys_unique<T>(s: Seq<(i64, T)>) -> bool {
    forall|a: int, b: int|
        0 <= a < b < s.len() ==> (#[trigger] s[a]).0 != (#[trigger] s[b]).0
}

/// Position `j` of `s` holds an entry for handle `h`.
spec fn has_key_at<T>(s: Seq<(i64, T)>, j: int, h: i64) -> bool {
    0 <= j < s.len() && s[j].0 == h
}

/// Some position of `s` holds an entry for handle `h`.
spec fn contains_key<T>(s: Seq<(i64, T)>, h: i64) -> bool {
    exists|j: int| has_key_at(s, j, h)
}

/// The position of `s` holding the entry for handle `h` (meaningful when one
/// exists; unique when the keys are distinct).
spec fn key_index<T>(s: Seq<(i64, T)>, h: i64) -> int {
    choose|j: int| has_key_at(s, j, h)
}

/// The map an entry sequence stands for.
spec fn as_map<T>(s: Seq<(i64, T)>) -> Map<i64, T> {
    Map::new(|h: i64| contains_key(s, h), |h: i64| s[key_index(s, h)].1)
}

proof fn lemma_key_index_unique<T>(s: Seq<(i64, T)>, h: i64, a: int, b: int)
    requires
        keys_unique(s),
        has_key_at(s, a, h),
        has_key_at(s, b, h),
    ensures
        a == b,
{
    if a < b {
        assert(s[a].0 != s[b].0);
    }
    if b < a {
        assert(s[b].0 != s[a].0);
    }
}

/// When position `j` holds the entry for `h`, the map contains `h` and maps it
/// to that entry's value.
proof fn lemma_at_key<T>(s: Seq<(i64, T)>, h: i64, j: int)
    requires
        keys_unique(s),
        has_key_at(s, j, h),
    ensures
        as_map(s).dom().contains(h),
        as_map(s)[h] == s[j].1,
{
    assert(contains_key(s, h));
    let j2 = key_index(s, h);
    assert(has_key_at(s, j2, h));
    lemma_key_index_unique(s, h, j, j2);
}

/// Appending an entry with a fresh key extends the map by exactly that binding.
proof fn lemma_as_map_push<T>(s: Seq<(i64, T)>, h: i64, v: T)
    requires
        keys_unique(s),
        !contains_key(s, h),
    ensures
        keys_unique(s.push((h, v))),
        as_map(s.push((h, v))) == as_map(s).insert(h, v),
{
    let t = s.push((h, v));
    let n = s.len() as int;
    assert forall|a: int| 0 <= a < n implies (#[trigger] s[a]).0 != h by {
        if s[a].0 == h {
            assert(has_key_at(s, a, h));
        }
    }
    assert(t[n] == (h, v));
    assert forall|a: int, b: int| 0 <= a < b < t.len() implies (#[trigger] t[a]).0 != (
    #[trigger] t[b]).0 by {
        if b < n {
            assert(t[a] == s[a]);
            assert(t[b] == s[b]);
            assert(s[a].0 != s[b].0);
        } else {
            assert(t[a] == s[a]);
            assert(t[b].0 == h);
        }
    }
    assert_maps_equal!(as_map(t), as_map(s).insert(h, v), k: i64 => {
        if k == h {
            assert(has_key_at(t, n, h));
            lemma_at_key(t, h, n);
        } else {
            if contains_key(t, k) {
                let j = key_index(t, k);
                assert(has_key_at(t, j, k));
                assert(j != n);
                assert(t[j] == s[j]);
                assert(has_key_at(s, j, k));
                lemma_at_key(s, k, j);
                lemma_at_key(t, k, j);
            }
            if contains_key(s, k) {
                let j = key_index(s, k);
                assert(has_key_at(s, j, k));
                assert(t[j] == s[j]);
                assert(has_key_at(t, j, k));
            }
        }
    });
}

/// Removing the entry at a position removes exactly that position's key from
/// the map.
proof fn lemma_as_map_remove_at<T>(s: Seq<(i64, T)>, i: int)
    requires
        keys_unique(s),
        0 <= i < s.len(),
    ensures
        keys_unique(s.remove(i)),
        as_map(s.remove(i)) == as_map(s).remove(s[i].0),
        as_map(s).dom().contains(s[i].0),
        as_map(s)[s[i].0] == s[i].1,
{
    let h = s[i].0;
    let t = s.remove(i);
    s.remove_ensures(i);
    assert(has_key_at(s, i, h));
    lemma_at_key(s, h, i);
    assert forall|a: int, b: int| 0 <= a < b < t.len() implies (#[trigger] t[a]).0 != (
    #[trigger] t[b]).0 by {
        let a2 = if a < i { a } else { a + 1 };
        let b2 = if b < i { b } else { b + 1 };
        assert(t[a] == s[a2]);
        assert(t[b] == s[b2]);
        assert(s[a2].0 != s[b2].0);
    }
    assert_maps_equal!(as_map(t), as_map(s).remove(h), k: i64 => {
        if k == h {
            if contains_key(t, h) {
                let j = key_index(t, h);
                assert(has_key_at(t, j, h));
                let j2 = if j < i { j } else { j + 1 };
                assert(t[j] == s[j2]);
                assert(has_key_at(s, j2, h));
                lemma_key_index_unique(s, h, j2, i);
                assert(false);
            }
        } else {
            if contains_key(t, k) {
                let j = key_index(t, k);
                assert(has_key_at(t, j, k));
                let j2 = if j < i { j } else { j + 1 };
                assert(t[j] == s[j2]);
                assert(has_key_at(s, j2, k));
                lemma_at_key(t, k, j);
                lemma_at_key(s, k, j2);
            }
            if contains_key(s, k) {
                let j2 = key_index(s, k);
                assert(has_key_at(s, j2, k));
                assert(j2 != i);
                let j = if j2 < i { j2 } else { j2 - 1 };
                assert(t[j] == s[j2]);
                assert(has_key_at(t, j, k));
            }
        }
    });
}

/// Removing an absent key leaves the map unchanged.
proof fn lemma_as_map_remove_absent<T>(s: Seq<(i64, T)>, h: i64)
    requires
        !contains_key(s, h),
    ensures
        !as_map(s).dom().contains(h),
        as_map(s) == as_map(s).remove(h),
{
    assert_maps_equal!(as_map(s), as_map(s).remove(h));
}

impl<T> View for HandleMap<T> {
    type V = Map<i64, T>;

    closed spec fn view(&self) -> Map<i64, T> {
        as_map(self.entries@)
    }
}

impl<T> HandleMap<T> {
    /// Each handle names at most one entry.
    pub closed spec fn wf(&self) -> bool {
        keys_unique(self.entries@)
    }

    pub fn new() -> (m: HandleMap<T>)
        ensures
            m.wf(),
            m@ == Map::<i64, T>::empty(),
    {
        let m = HandleMap { entries: Vec::new() };
        proof {
            assert_maps_equal!(m@, Map::<i64, T>::empty(), k: i64 => {
                if contains_key(m.entries@, k) {
                    let j = key_index(m.entries@, k);
                    assert(has_key_at(m.entries@, j, k));
                }
            });
        }
        m
    }

    /// The position of the entry for `h`, if one exists.
    fn find(&self, h: i64) -> (r: Option<usize>)
        ensures
            (match r {
                Some(i) => i < self.entries@.len() && self.entries@[i as int].0 == h,
                None => !contains_key(self.entries@, h),
            }),
    {
        let n = self.entries.len();
        let mut i: usize = 0;
        while i < n
            invariant
                n == self.entries@.len(),
                i <= n,
                forall|j: int| 0 <= j < i ==> (#[trigger] self.entries@[j]).0 != h,
            decreases n - i,
        {
            if self.entries[i].0 == h {
                return Some(i);
            }
            i = i + 1;
        }
        proof {
            if contains_key(self.entries@, h) {
                let j = key_index(self.entries@, h);
                assert(has_key_at(self.entries@, j, h));
                assert(self.entries@[j].0 == h);
            }
        }
        None
    }

    /// Looks the value for `h` up without touching the map.
    pub fn get(&self, h: i64) -> (r: Option<&T>)
        requires
            self.wf(),
        ensures
            (match r {
                Some(v) => self@.dom().contains(h) && *v == self@[h],
                None => !self@.dom().contains(h),
            }),
    {
        match self.find(h) {
            Some(i) => {
                proof {
                    assert(has_key_at(self.entries@, i as int, h));
                    lemma_at_key(self.entries@, h, i as int);
                }
                Some(&self.entries[i].1)
            },
            None => None,
        }
    }

    /// Binds `h` to `v`. An existing entry for `h` is replaced, and its value
    /// dropped, as inserting into a hash map would.
    pub fn insert(&mut self, h: i64, v: T)
        requires
            old(self).wf(),
        ensures
            final(self).wf(),
            final(self)@ == old(self)@.insert(h, v),
    {
        let _ = self.remove(h);
        let ghost mid = self.entries@;
        proof {
            assert(!as_map(mid).dom().contains(h));
            lemma_as_map_push(mid, h, v);
        }
        self.entries.push((h, v));
        proof {
            assert_maps_equal!(old(self)@.remove(h).insert(h, v), old(self)@.insert(h, v));
        }
    }

    /// Removes and returns the value bound to `h`, if any.
    pub fn remove(&mut self, h: i64) -> (r: Option<T>)
        requires
            old(self).wf(),
        ensures
            final(self).wf(),
            final(self)@ == old(self)@.remove(h),
            (match r {
                Some(v) => old(self)@.dom().contains(h) && v == old(self)@[h],
                None => !old(self)@.dom().contains(h),
            }),
    {
        match self.find(h) {
            Some(i) => {
                proof {
                    lemma_as_map_remove_at(self.entries@, i as int);
                }
                let entry = self.entries.remove(i);
                Some(entry.1)
            },
            None => {
                proof {
                    lemma_as_map_remove_absent(self.entries@, h);
                }
                None
            },
        }
    }
}

} // verus!
