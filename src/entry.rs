//! Entry views: a cache borrowed exclusively together with the slot that one
//! key was classified into, so that the slot can be read or filled without a
//! second search.
//!
//! The fields are public so that contracts can name the final state of the
//! borrowed cache; the methods require `wf`, which ties the slot to the cache.

use vstd::prelude::*;
use crate::cache::Cache;
use crate::model::{CacheState, Slot};

verus! {

/// Where the slot of an occupied entry stands.
#[derive(Debug, Clone, Copy, PartialEq, Eq)]
pub enum OccupiedKind {
    Recent(usize),
    Frequent(usize),
}

/// What a vacant entry knows of its key: remembered in `ghost` at an index,
/// or unknown.
#[derive(Debug, Clone, Copy, PartialEq, Eq)]
pub enum VacantKind {
    Remembered(usize),
    Unknown,
}

/// A view on the slot of a key that is live in the cache.
#[derive(Debug)]
pub struct OccupiedEntry<'a, K, V> {
    pub cache: &'a mut Cache<K, V>,
    pub kind: OccupiedKind,
}

/// A view on a key that is not live in the cache.
#[derive(Debug)]
pub struct VacantEntry<'a, K, V> {
    pub cache: &'a mut Cache<K, V>,
    pub key: K,
    pub kind: VacantKind,
}

/// A view on one key's slot, occupied or vacant.
#[derive(Debug)]
pub enum Entry<'a, K, V> {
    Occupied(OccupiedEntry<'a, K, V>),
    Vacant(VacantEntry<'a, K, V>),
}

impl<'a, K: PartialEq, V> OccupiedEntry<'a, K, V> {
    /// The cache is well formed and the slot lies within its segment.
    pub open spec fn wf(self) -> bool {
        &&& self.cache.wf()
        &&& match self.kind {
            OccupiedKind::Recent(i) => i < (*self.cache)@.recent.len(),
            OccupiedKind::Frequent(j) => j < (*self.cache)@.frequent.len(),
        }
    }

    /// The key and value in the slot.
    pub open spec fn slot(self) -> (K, V) {
        match self.kind {
            OccupiedKind::Recent(i) => (*self.cache)@.recent[i as int],
            OccupiedKind::Frequent(j) => (*self.cache)@.frequent[j as int],
        }
    }

    /// The cache with the slot holding `e`.
    pub open spec fn with_slot(self, e: (K, V)) -> CacheState<K, V> {
        let st = (*self.cache)@;
        match self.kind {
            OccupiedKind::Recent(i) => st.with_segments(
                st.recent.update(i as int, e),
                st.frequent,
                st.ghost_keys,
            ),
            OccupiedKind::Frequent(j) => st.with_segments(
                st.recent,
                st.frequent.update(j as int, e),
                st.ghost_keys,
            ),
        }
    }

    /// The cache with the slot's value replaced by `v`.
    pub open spec fn with_value(self, v: V) -> CacheState<K, V> {
        self.with_slot((self.slot().0, v))
    }

    /// The cache without the slot.
    pub open spec fn without_slot(self) -> CacheState<K, V> {
        let st = (*self.cache)@;
        match self.kind {
            OccupiedKind::Recent(i) => st.with_segments(
                st.recent.remove(i as int),
                st.frequent,
                st.ghost_keys,
            ),
            OccupiedKind::Frequent(j) => st.with_segments(
                st.recent,
                st.frequent.remove(j as int),
                st.ghost_keys,
            ),
        }
    }

    fn entry(&self) -> (r: &(K, V))
        requires
            self.wf(),
        ensures
            *r == self.slot(),
    {
        match self.kind {
            OccupiedKind::Recent(idx) => &self.cache.recent[idx],
            OccupiedKind::Frequent(idx) => &self.cache.frequent[idx],
        }
    }

    fn entry_mut(&mut self) -> (r: &mut (K, V))
        requires
            old(self).wf(),
        ensures
            *r == old(self).slot(),
            final(self).kind == old(self).kind,
            (*final(self).cache)@ == old(self).with_slot(*final(r)),
            *final(final(self).cache) == *final(old(self).cache),
    {
        match self.kind {
            OccupiedKind::Recent(idx) => &mut self.cache.recent[idx],
            OccupiedKind::Frequent(idx) => &mut self.cache.frequent[idx],
        }
    }

    /// The key in the slot.
    pub fn key(&self) -> (r: &K)
        requires
            self.wf(),
        ensures
            *r == self.slot().0,
    {
        &self.entry().0
    }

    /// The value in the slot.
    pub fn get(&self) -> (r: &V)
        requires
            self.wf(),
        ensures
            *r == self.slot().1,
    {
        &self.entry().1
    }

    /// The value in the slot, open to change in place.
    pub fn get_mut(&mut self) -> (r: &mut V)
        requires
            old(self).wf(),
        ensures
            *r == old(self).slot().1,
            final(self).kind == old(self).kind,
            (*final(self).cache)@ == old(self).with_value(*final(r)),
            *final(final(self).cache) == *final(old(self).cache),
    {
        &mut self.entry_mut().1
    }

    /// The value in the slot, borrowed for as long as the cache was.
    pub fn into_mut(self) -> (r: &'a mut V)
        requires
            self.wf(),
        ensures
            *r == self.slot().1,
            (*final(self.cache))@ == self.with_value(*final(r)),
    {
        match self.kind {
            OccupiedKind::Recent(idx) => &mut self.cache.recent[idx].1,
            OccupiedKind::Frequent(idx) => &mut self.cache.frequent[idx].1,
        }
    }

    /// Replaces the value in the slot and returns the one it held. The slot
    /// keeps its segment and position.
    pub fn insert(&mut self, value: V) -> (r: V)
        requires
            old(self).wf(),
        ensures
            r == old(self).slot().1,
            final(self).kind == old(self).kind,
            (*final(self).cache)@ == old(self).with_value(value),
            *final(final(self).cache) == *final(old(self).cache),
    {
        let mut v = value;
        std::mem::swap(self.get_mut(), &mut v);
        v
    }

    /// Deletes the slot from its segment and returns its key and value.
    pub fn remove_entry(self) -> (r: (K, V))
        requires
            self.wf(),
        ensures
            r == self.slot(),
            (*final(self.cache))@ == self.without_slot(),
    {
        match self.kind {
            OccupiedKind::Recent(idx) => self.cache.recent.remove(idx),
            OccupiedKind::Frequent(idx) => self.cache.frequent.remove(idx),
        }
    }

    /// Deletes the slot from its segment and returns its value.
    pub fn remove(self) -> (r: V)
        requires
            self.wf(),
        ensures
            r == self.slot().1,
            (*final(self.cache))@ == self.without_slot(),
    {
        self.remove_entry().1
    }
}

impl<'a, K: PartialEq, V> VacantEntry<'a, K, V> {
    /// The cache is well formed and a remembered index lies within `ghost`.
    pub open spec fn wf(self) -> bool {
        &&& self.cache.wf()
        &&& match self.kind {
            VacantKind::Remembered(g) => g < (*self.cache)@.ghost_keys.len(),
            VacantKind::Unknown => true,
        }
    }

    /// The cache once the key has been admitted with value `v`.
    pub open spec fn admitted(self, v: V) -> CacheState<K, V> {
        match self.kind {
            VacantKind::Remembered(g) => (*self.cache)@.admit_from_ghost(g as int, self.key, v),
            VacantKind::Unknown => (*self.cache)@.admit_new(self.key, v),
        }
    }

    /// The key that would be inserted.
    pub fn key(&self) -> (r: &K)
        ensures
            *r == self.key,
    {
        &self.key
    }

    /// Gives the key back and leaves the cache as it is.
    pub fn into_key(self) -> (r: K)
        ensures
            r == self.key,
            *final(self.cache) == *old(self.cache),
    {
        self.key
    }

    /// Admits the key with `value` by the 2Q policy and returns the stored
    /// value: a remembered key enters the front of `frequent`, dropping its
    /// back entry when full; an unknown key enters the front of `recent`,
    /// whose back entry, when full, is evicted and its key remembered at the
    /// front of `ghost`.
    pub fn insert(self, value: V) -> (r: &'a mut V)
        requires
            self.wf(),
        ensures
            *r == value,
            (*final(self.cache))@ == self.admitted(*final(r)),
            final(self.cache).wf(),
    {
        let ghost st0 = (*self.cache)@;
        let ghost this = self;
        let VacantEntry { cache, key, kind } = self;
        match kind {
            VacantKind::Remembered(idx) => {
                cache.ghost_keys.remove(idx);
                if cache.frequent.len() + 1 > cache.max_frequent {
                    cache.frequent.pop();
                }
                cache.frequent.insert(0, (key, value));
                assert((*cache)@ =~= this.admitted(value));
                let r = &mut cache.frequent[0].1;
                proof {
                    st0.lemma_admit_from_ghost_value(idx as int, this.key, value, *final(r));
                }
                r
            },
            VacantKind::Unknown => {
                if cache.recent.len() + 1 > cache.max_recent {
                    if let Some((old_key, _)) = cache.recent.pop() {
                        if cache.ghost_keys.len() + 1 > cache.max_ghost {
                            cache.ghost_keys.pop();
                        }
                        cache.ghost_keys.insert(0, old_key);
                    }
                }
                cache.recent.insert(0, (key, value));
                assert((*cache)@ =~= this.admitted(value));
                let r = &mut cache.recent[0].1;
                proof {
                    st0.lemma_admit_new_value(this.key, value, *final(r));
                }
                r
            },
        }
    }
}

impl<'a, K: PartialEq, V> Entry<'a, K, V> {
    /// The view's cache and slot fit together.
    pub open spec fn wf(self) -> bool {
        match self {
            Entry::Occupied(o) => o.wf(),
            Entry::Vacant(v) => v.wf(),
        }
    }

    /// The borrowed cache as it stands now.
    pub open spec fn current(self) -> CacheState<K, V> {
        match self {
            Entry::Occupied(o) => (*o.cache)@,
            Entry::Vacant(v) => (*v.cache)@,
        }
    }

    /// The view classifies `key` as `st.classify(key)` says, with a hit in
    /// `frequent` at `front` when `promoted` and at its own index otherwise.
    pub open spec fn classifies(self, st: CacheState<K, V>, key: K, promoted: bool) -> bool {
        match self {
            Entry::Occupied(o) => match st.classify(key) {
                Slot::Frequent(j) => o.kind == OccupiedKind::Frequent(
                    if promoted {
                        0
                    } else {
                        j as usize
                    },
                ),
                Slot::Recent(i) => o.kind == OccupiedKind::Recent(i as usize),
                _ => false,
            },
            Entry::Vacant(v) => v.key == key && match st.classify(key) {
                Slot::Remembered(g) => v.kind == VacantKind::Remembered(g as usize),
                Slot::Unknown => v.kind == VacantKind::Unknown,
                _ => false,
            },
        }
    }

    /// The key of the view.
    pub fn key(&self) -> (r: &K)
        requires
            self.wf(),
        ensures
            *r == match *self {
                Entry::Occupied(o) => o.slot().0,
                Entry::Vacant(v) => v.key,
            },
    {
        match self {
            Entry::Occupied(entry) => entry.key(),
            Entry::Vacant(entry) => entry.key(),
        }
    }

    /// The value of an occupied view, or `default` admitted for a vacant one.
    pub fn or_insert(self, default: V) -> (r: &'a mut V)
        requires
            self.wf(),
        ensures
            match self {
                Entry::Occupied(o) => {
                    &&& *r == o.slot().1
                    &&& (*final(o.cache))@ == o.with_value(*final(r))
                },
                Entry::Vacant(v) => {
                    &&& *r == default
                    &&& (*final(v.cache))@ == v.admitted(*final(r))
                },
            },
    {
        match self {
            Entry::Occupied(entry) => entry.into_mut(),
            Entry::Vacant(entry) => entry.insert(default),
        }
    }

    /// The value of an occupied view, or the result of `default` admitted for
    /// a vacant one; `default` is called only then.
    pub fn or_insert_with<F: FnOnce() -> V>(self, default: F) -> (r: &'a mut V)
        requires
            self.wf(),
            self is Vacant ==> default.requires(()),
        ensures
            match self {
                Entry::Occupied(o) => {
                    &&& *r == o.slot().1
                    &&& (*final(o.cache))@ == o.with_value(*final(r))
                },
                Entry::Vacant(v) => {
                    &&& default.ensures((), *r)
                    &&& (*final(v.cache))@ == v.admitted(*final(r))
                },
            },
    {
        match self {
            Entry::Occupied(entry) => entry.into_mut(),
            Entry::Vacant(entry) => entry.insert(default()),
        }
    }
}

} // verus!
