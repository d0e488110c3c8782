//! Bounded, least-recently-used memoization of rendered entry lines.
use vstd::prelude::*;

use crate::model::EntryUuid;
use crate::text::texts;
use crate::types::WrapMode;

verus! {

/// What a cached rendering depends on.
#[derive(Debug, Clone)]
pub struct RenderCacheKey {
    pub uuid: EntryUuid,
    pub width: u16,
    pub expanded: bool,
    pub wrap_mode: WrapMode,
}

/// A key as plain values.
pub type KeyView = (Seq<char>, u16, bool, WrapMode);

pub open spec fn key_view(k: RenderCacheKey) -> KeyView {
    (k.uuid.value@, k.width, k.expanded, k.wrap_mode)
}

impl RenderCacheKey {
    pub fn new(uuid: EntryUuid, width: u16, expanded: bool, wrap_mode: WrapMode) -> (r: Self)
        ensures
            r.uuid == uuid,
            r.width == width,
            r.expanded == expanded,
            r.wrap_mode == wrap_mode,
    {
        RenderCacheKey { uuid, width, expanded, wrap_mode }
    }

    pub fn same_as(&self, other: &RenderCacheKey) -> (r: bool)
        ensures
            r == (key_view(*self) == key_view(*other)),
    {
        self.uuid.same_as(&other.uuid) && self.width == other.width && self.expanded == other.expanded
            && self.wrap_mode == other.wrap_mode
    }
}

/// Settings of a render cache.
#[derive(Debug, Clone, Copy, PartialEq, Eq, Structural)]
pub struct RenderCacheConfig {
    pub capacity: usize,
}

/// Cached renderings, least recently used first.
#[derive(Debug, Clone)]
pub struct RenderCache {
    entries: Vec<(RenderCacheKey, Vec<String>)>,
    capacity: usize,
}

/// Keeps the newest `cap` items.
pub open spec fn evict(m: Seq<(KeyView, Seq<Seq<char>>)>, cap: nat) -> Seq<(KeyView, Seq<Seq<char>>)> {
    if m.len() > cap {
        m.drop_first()
    } else {
        m
    }
}

/// Removing the only item with key `m[i].0` leaves distinct keys, none equal to it.
proof fn lemma_remove_distinct(m: Seq<(KeyView, Seq<Seq<char>>)>, i: int)
    requires
        0 <= i < m.len(),
        forall|a: int, b: int| 0 <= a < b < m.len() ==> m[a].0 != m[b].0,
    ensures
        forall|a: int, b: int| 0 <= a < b < m.remove(i).len() ==> m.remove(i)[a].0 != m.remove(i)[b].0,
        forall|a: int| 0 <= a < m.remove(i).len() ==> m.remove(i)[a].0 != m[i].0,
{
    let r = m.remove(i);
    assert forall|a: int| 0 <= a < r.len() implies r[a] == m[if a < i { a } else { a + 1 }] by {}
    assert forall|a: int, b: int| 0 <= a < b < r.len() implies r[a].0 != r[b].0 by {
        assert(r[a] == m[if a < i { a } else { a + 1 }]);
        assert(r[b] == m[if b < i { b } else { b + 1 }]);
    }
    assert forall|a: int| 0 <= a < r.len() implies r[a].0 != m[i].0 by {
        assert(r[a] == m[if a < i { a } else { a + 1 }]);
    }
}

impl RenderCache {
    /// Contents in recency order, least recently used first.
    pub closed spec fn model(&self) -> Seq<(KeyView, Seq<Seq<char>>)> {
        self.entries@.map_values(|e: (RenderCacheKey, Vec<String>)| (key_view(e.0), texts(e.1@)))
    }

    pub closed spec fn spec_capacity(&self) -> nat {
        self.capacity as nat
    }

    pub open spec fn contains(&self, k: KeyView) -> bool {
        exists|i: int| 0 <= i < self.model().len() && self.model()[i].0 == k
    }

    pub open spec fn wf(&self) -> bool {
        &&& self.model().len() <= self.spec_capacity()
        &&& forall|i: int, j: int|
            0 <= i < j < self.model().len() ==> self.model()[i].0 != self.model()[j].0
    }

    pub fn new(config: &RenderCacheConfig) -> (r: Self)
        ensures
            r.wf(),
            r.model().len() == 0,
            r.spec_capacity() == config.capacity,
    {
        let r = RenderCache { entries: Vec::new(), capacity: config.capacity };
        assert(r.model() =~= Seq::empty());
        r
    }

    pub fn len(&self) -> (r: usize)
        ensures
            r == self.model().len(),
    {
        self.entries.len()
    }

    pub fn is_empty(&self) -> (r: bool)
        ensures
            r == (self.model().len() == 0),
    {
        self.entries.len() == 0
    }

    pub fn capacity(&self) -> (r: usize)
        ensures
            r == self.spec_capacity(),
    {
        self.capacity
    }

    pub fn clear(&mut self)
        ensures
            final(self).model().len() == 0,
            final(self).spec_capacity() == old(self).spec_capacity(),
            final(self).wf(),
    {
        self.entries.clear();
        assert(self.model() =~= Seq::empty());
    }

    fn position(&self, key: &RenderCacheKey) -> (r: Option<usize>)
        ensures
            r matches Some(i) ==> i < self.model().len() && self.model()[i as int].0 == key_view(*key),
            r is None ==> !self.contains(key_view(*key)),
    {
        let n = self.entries.len();
        let mut i: usize = 0;
        while i < n
            invariant
                n == self.model().len(),
                i <= n,
                forall|j: int| 0 <= j < i ==> self.model()[j].0 != key_view(*key),
            decreases n - i,
        {
            if self.entries[i].0.same_as(key) {
                return Some(i);
            }
            i = i + 1;
        }
        None
    }

    /// The lines cached under `key`; a hit makes the key the most recently used.
    pub fn get(&mut self, key: &RenderCacheKey) -> (r: Option<&Vec<String>>)
        requires
            old(self).wf(),
        ensures
            final(self).wf(),
            final(self).spec_capacity() == old(self).spec_capacity(),
            r.is_some() == old(self).contains(key_view(*key)),
            !old(self).contains(key_view(*key)) ==> final(self).model() == old(self).model(),
            forall|i: int|
                0 <= i < old(self).model().len() && old(self).model()[i].0 == key_view(*key) ==> {
                    &&& r.is_some()
                    &&& texts(r.unwrap()@) == old(self).model()[i].1
                    &&& final(self).model() == old(self).model().remove(i).push(old(self).model()[i])
                },
    {
        match self.position(key) {
            None => None,
            Some(i) => {
                let ghost m = self.model();
                let e = self.entries.remove(i);
                self.entries.push(e);
                proof {
                    assert(self.model() =~= m.remove(i as int).push(m[i as int]));
                    assert forall|j: int| 0 <= j < m.len() && m[j].0 == key_view(*key) implies j == i by {}
                    self.lemma_distinct_after_move(m, i as int);
                }
                let last = self.entries.len() - 1;
                Some(&self.entries[last].1)
            },
        }
    }

    proof fn lemma_distinct_after_move(&self, m: Seq<(KeyView, Seq<Seq<char>>)>, i: int)
        requires
            0 <= i < m.len(),
            forall|a: int, b: int| 0 <= a < b < m.len() ==> m[a].0 != m[b].0,
            self.model() == m.remove(i).push(m[i]),
        ensures
            forall|a: int, b: int| 0 <= a < b < self.model().len() ==> self.model()[a].0 != self.model()[b].0,
    {
        let s = self.model();
        assert forall|a: int, b: int| 0 <= a < b < s.len() implies s[a].0 != s[b].0 by {
            let ia = if a < i {
                a
            } else {
                a + 1
            };
            let ib = if b == s.len() - 1 {
                i
            } else if b < i {
                b
            } else {
                b + 1
            };
            assert(s[a] == m[ia]);
            assert(s[b] == m[ib]);
            assert(ia != ib);
        }
    }

    /// Stores `lines` under `key`, replacing an earlier value for it, and evicts the
    /// least recently used rendering when over capacity.
    pub fn put(&mut self, key: RenderCacheKey, lines: Vec<String>)
        requires
            old(self).wf(),
        ensures
            final(self).wf(),
            final(self).spec_capacity() == old(self).spec_capacity(),
            !old(self).contains(key_view(key)) ==> final(self).model() == evict(
                old(self).model().push((key_view(key), texts(lines@))),
                old(self).spec_capacity(),
            ),
            forall|i: int|
                0 <= i < old(self).model().len() && old(self).model()[i].0 == key_view(key)
                    ==> final(self).model() == evict(
                    old(self).model().remove(i).push((key_view(key), texts(lines@))),
                    old(self).spec_capacity(),
                ),
    {
        let ghost m = self.model();
        let ghost kv = key_view(key);
        let ghost item = (key_view(key), texts(lines@));
        let ghost m0: Seq<(KeyView, Seq<Seq<char>>)>;
        match self.position(&key) {
            Some(i) => {
                self.entries.remove(i);
                proof {
                    assert(self.model() =~= m.remove(i as int));
                    lemma_remove_distinct(m, i as int);
                    m0 = m.remove(i as int);
                }
            },
            None => {
                proof {
                    m0 = m;
                }
            },
        }
        let ghost m1 = m0.push(item);
        self.entries.push((key, lines));
        proof {
            assert(self.model() =~= m1);
        }
        if self.entries.len() > self.capacity {
            self.entries.remove(0);
            proof {
                assert(self.model() =~= m1.drop_first());
            }
        }
        proof {
            let s = self.model();
            assert forall|a: int, b: int| 0 <= a < b < s.len() implies s[a].0 != s[b].0 by {
                let d = if s == m1 {
                    0int
                } else {
                    1int
                };
                assert(s[a] == m1[a + d]);
                assert(s[b] == m1[b + d]);
            }
        }
    }
}

} // verus!
