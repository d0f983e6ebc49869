//! The cache itself: three segments and their capacities.

use vstd::prelude::*;
use vstd::std_specs::cmp::PartialEqSpec;
use crate::entry::{Entry, OccupiedEntry, OccupiedKind, VacantEntry, VacantKind};
use crate::model::{
    as_index,
    is_first_match,
    keys,
    lemma_position_is,
    lemma_position_none,
    position,
    to_front,
    value_of,
    CacheState,
};

verus! {

/// A 2Q cache of at most `size` live entries, with up to `size / 2` more keys
/// remembered after their eviction from `recent`.
#[derive(Debug, Clone, PartialEq, Eq)]
pub struct Cache<K, V> {
    pub(crate) frequent: Vec<(K, V)>,
    pub(crate) recent: Vec<(K, V)>,
    pub(crate) ghost_keys: Vec<K>,
    pub(crate) max_frequent: usize,
    pub(crate) max_recent: usize,
    pub(crate) max_ghost: usize,
}

impl<K, V> View for Cache<K, V> {
    type V = CacheState<K, V>;

    open(crate) spec fn view(&self) -> CacheState<K, V> {
        CacheState {
            recent: self.recent@,
            frequent: self.frequent@,
            ghost_keys: self.ghost_keys@,
            max_recent: self.max_recent as nat,
            max_frequent: self.max_frequent as nat,
            max_ghost: self.max_ghost as nat,
        }
    }
}

/// The first position of `s` whose key equals `key`.
pub(crate) fn find_entry<K: PartialEq, V>(s: &Vec<(K, V)>, key: &K) -> (r: Option<usize>)
    ensures
        r matches Some(i) ==> i < s@.len(),
        K::obeys_eq_spec() ==> as_index(r) == position(keys(s@), *key),
{
    let mut i: usize = 0;
    while i < s.len()
        invariant
            i <= s@.len(),
            K::obeys_eq_spec() ==> forall|j: int|
                0 <= j < i ==> !(#[trigger] keys(s@)[j]).eq_spec(key),
        decreases s@.len() - i,
    {
        if s[i].0 == *key {
            proof {
                if K::obeys_eq_spec() {
                    assert(is_first_match(keys(s@), *key, i as int));
                    lemma_position_is(keys(s@), *key, i as int);
                }
            }
            return Some(i);
        }
        i += 1;
    }
    proof {
        if K::obeys_eq_spec() {
            lemma_position_none(keys(s@), *key);
        }
    }
    None
}

/// The first position of `s` that equals `key`.
pub(crate) fn find_key<K: PartialEq>(s: &Vec<K>, key: &K) -> (r: Option<usize>)
    ensures
        r matches Some(i) ==> i < s@.len(),
        K::obeys_eq_spec() ==> as_index(r) == position(s@, *key),
{
    let mut i: usize = 0;
    while i < s.len()
        invariant
            i <= s@.len(),
            K::obeys_eq_spec() ==> forall|j: int| 0 <= j < i ==> !(#[trigger] s@[j]).eq_spec(key),
        decreases s@.len() - i,
    {
        if s[i] == *key {
            proof {
                if K::obeys_eq_spec() {
                    lemma_position_is(s@, *key, i as int);
                }
            }
            return Some(i);
        }
        i += 1;
    }
    proof {
        if K::obeys_eq_spec() {
            lemma_position_none(s@, *key);
        }
    }
    None
}

/// Moves the entry at `j` of `s` to its front.
pub(crate) fn move_to_front<T>(s: &mut Vec<T>, j: usize)
    requires
        j < old(s)@.len(),
    ensures
        final(s)@ == to_front(old(s)@, j as int),
{
    let e = s.remove(j);
    s.insert(0, e);
    assert(s@ =~= to_front(old(s)@, j as int));
}

impl<K: PartialEq, V> Cache<K, V> {
    /// The cache is in a state that its operations can be in.
    pub open spec fn wf(&self) -> bool {
        self@.valid()
    }

    /// A cache for `size` live entries: `recent` gets `max(1, size / 4)` of
    /// them, `frequent` the rest, and `ghost_keys` remembers `size / 2` keys.
    pub fn new(size: usize) -> (c: Cache<K, V>)
        requires
            size > 0,
        ensures
            c.wf(),
            c@.sized(size as nat),
            c@.recent.len() == 0,
            c@.frequent.len() == 0,
            c@.ghost_keys.len() == 0,
    {
        let max_recent: usize = if size / 4 > 1 {
            size / 4
        } else {
            1
        };
        let max_frequent: usize = size - max_recent;
        let max_ghost: usize = size / 2;
        Cache {
            frequent: Vec::with_capacity(max_frequent),
            recent: Vec::with_capacity(max_recent),
            ghost_keys: Vec::with_capacity(max_ghost),
            max_frequent,
            max_recent,
            max_ghost,
        }
    }

    /// Whether `key` is live, in `recent` or in `frequent`.
    pub fn contains_key(&self, key: &K) -> (r: bool)
        ensures
            K::obeys_eq_spec() ==> r == self@.contains(*key),
    {
        find_entry(&self.recent, key).is_some() || find_entry(&self.frequent, key).is_some()
    }

    /// The value of `key`, found in `recent` first, without reordering anything.
    pub fn peek(&self, key: &K) -> (r: Option<&V>)
        ensures
            K::obeys_eq_spec() ==> value_of(r) == self@.lookup(*key),
    {
        if let Some(i) = find_entry(&self.recent, key) {
            Some(&self.recent[i].1)
        } else if let Some(j) = find_entry(&self.frequent, key) {
            Some(&self.frequent[j].1)
        } else {
            None
        }
    }

    /// The value of `key`, found in `recent` first; a hit in `frequent` moves
    /// to its front.
    pub fn get(&mut self, key: &K) -> (r: Option<&V>)
        requires
            old(self).wf(),
        ensures
            final(self).wf(),
            final(self)@.ghost_keys == old(self)@.ghost_keys,
            K::obeys_eq_spec() ==> final(self)@ == old(self)@.touch(*key),
            K::obeys_eq_spec() ==> value_of(r) == old(self)@.lookup(*key),
    {
        if let Some(i) = find_entry(&self.recent, key) {
            Some(&self.recent[i].1)
        } else if let Some(j) = find_entry(&self.frequent, key) {
            move_to_front(&mut self.frequent, j);
            Some(&self.frequent[0].1)
        } else {
            None
        }
    }

    /// Like `get`, with the value open to change in place.
    pub fn get_mut(&mut self, key: &K) -> (r: Option<&mut V>)
        requires
            old(self).wf(),
        ensures
            final(self).wf(),
            final(self)@.ghost_keys == old(self)@.ghost_keys,
            K::obeys_eq_spec() ==> match r {
                Some(v) => {
                    &&& old(self)@.lookup(*key) == Some(*v)
                    &&& final(self)@ == match position(keys(old(self)@.recent), *key) {
                        Some(i) => old(self)@.set_recent_value(i, *final(v)),
                        None => old(self)@.touch(*key).set_frequent_value(0, *final(v)),
                    }
                },
                None => old(self)@.lookup(*key) is None && final(self)@ == old(self)@,
            },
    {
        if let Some(i) = find_entry(&self.recent, key) {
            Some(&mut self.recent[i].1)
        } else if let Some(j) = find_entry(&self.frequent, key) {
            move_to_front(&mut self.frequent, j);
            Some(&mut self.frequent[0].1)
        } else {
            None
        }
    }

    /// The number of live entries.
    pub fn len(&self) -> (r: usize)
        requires
            self.wf(),
        ensures
            r == self@.len(),
    {
        self.recent.len() + self.frequent.len()
    }

    /// Whether no entry is live.
    pub fn is_empty(&self) -> (r: bool)
        ensures
            r == (self@.len() == 0),
    {
        self.recent.len() == 0 && self.frequent.len() == 0
    }

    /// Deletes `key` from `recent`, else from `frequent`, and returns its
    /// value. `ghost_keys` is left as it was.
    pub fn remove(&mut self, key: &K) -> (r: Option<V>)
        requires
            old(self).wf(),
        ensures
            final(self).wf(),
            final(self)@.ghost_keys == old(self)@.ghost_keys,
            K::obeys_eq_spec() ==> r == old(self)@.lookup(*key),
            K::obeys_eq_spec() ==> final(self)@ == old(self)@.remove(*key),
    {
        if let Some(i) = find_entry(&self.recent, key) {
            Some(self.recent.remove(i).1)
        } else if let Some(j) = find_entry(&self.frequent, key) {
            Some(self.frequent.remove(j).1)
        } else {
            None
        }
    }

    /// Empties all three segments; the capacities stay.
    pub fn clear(&mut self)
        requires
            old(self).wf(),
        ensures
            final(self).wf(),
            final(self)@ == old(self)@.with_segments(Seq::empty(), Seq::empty(), Seq::empty()),
    {
        self.recent.clear();
        self.ghost_keys.clear();
        self.frequent.clear();
    }

    /// Classifies `key`, checking `frequent`, then `recent`, then `ghost`, and
    /// returns a view on its slot. Nothing is reordered.
    pub fn peek_entry<'a>(&'a mut self, key: K) -> (e: Entry<'a, K, V>)
        requires
            old(self).wf(),
        ensures
            e.wf(),
            e.current() == old(self)@,
            K::obeys_eq_spec() ==> e.classifies(old(self)@, key, false),
            e matches Entry::Vacant(v) ==> v.key == key,
            match e {
                Entry::Occupied(o) => *final(o.cache) == *final(self),
                Entry::Vacant(v) => *final(v.cache) == *final(self),
            },
    {
        if let Some(i) = find_entry(&self.frequent, &key) {
            Entry::Occupied(OccupiedEntry { cache: self, kind: OccupiedKind::Frequent(i) })
        } else if let Some(i) = find_entry(&self.recent, &key) {
            Entry::Occupied(OccupiedEntry { cache: self, kind: OccupiedKind::Recent(i) })
        } else if let Some(i) = find_key(&self.ghost_keys, &key) {
            Entry::Vacant(VacantEntry { cache: self, key, kind: VacantKind::Remembered(i) })
        } else {
            Entry::Vacant(VacantEntry { cache: self, key, kind: VacantKind::Unknown })
        }
    }

    /// Like `peek_entry`, except that a hit in `frequent` is first moved to
    /// its front, as a `get` would.
    pub fn entry<'a>(&'a mut self, key: K) -> (e: Entry<'a, K, V>)
        requires
            old(self).wf(),
        ensures
            e.wf(),
            K::obeys_eq_spec() ==> e.current() == old(self)@.entered(key),
            K::obeys_eq_spec() ==> e.classifies(old(self)@, key, true),
            e matches Entry::Vacant(v) ==> v.key == key,
            match e {
                Entry::Occupied(o) => *final(o.cache) == *final(self),
                Entry::Vacant(v) => *final(v.cache) == *final(self),
            },
    {
        let entry = self.peek_entry(key);
        match entry {
            Entry::Occupied(OccupiedEntry { cache, kind: OccupiedKind::Frequent(i) }) => {
                move_to_front(&mut cache.frequent, i);
                Entry::Occupied(OccupiedEntry { cache, kind: OccupiedKind::Frequent(0) })
            },
            other => other,
        }
    }

    /// Sets the value of `key`: a live key keeps its slot (a hit in
    /// `frequent` moves to its front) and its old value is returned; a new
    /// key is admitted by the 2Q policy and `None` is returned.
    pub fn insert(&mut self, key: K, value: V) -> (r: Option<V>)
        requires
            old(self).wf(),
        ensures
            final(self).wf(),
            K::obeys_eq_spec() ==> r == old(self)@.previous(key),
            K::obeys_eq_spec() ==> final(self)@ == old(self)@.insert(key, value),
    {
        match self.entry(key) {
            Entry::Occupied(mut entry) => Some(entry.insert(value)),
            Entry::Vacant(entry) => {
                entry.insert(value);
                None
            },
        }
    }
}

} // verus!
