//! The mathematical model of a cache: three sequences and three capacities,
//! and the transitions that the executable operations perform on them.

use vstd::prelude::*;
use vstd::std_specs::cmp::PartialEqSpec;

verus! {

/// What a cache holds: `recent` and `frequent` as (key, value) pairs, and in
/// `ghost_keys` the bare keys of the ghost list; each sequence front first.
#[verifier::ext_equal]
pub struct CacheState<K, V> {
    pub recent: Seq<(K, V)>,
    pub frequent: Seq<(K, V)>,
    pub ghost_keys: Seq<K>,
    pub max_recent: nat,
    pub max_frequent: nat,
    pub max_ghost: nat,
}

/// Where a key stands in a cache, found in the order frequent, recent, ghost.
pub enum Slot {
    Frequent(int),
    Recent(int),
    Remembered(int),
    Unknown,
}

/// The keys of a segment, in order.
pub open spec fn keys<K, V>(s: Seq<(K, V)>) -> Seq<K> {
    s.map_values(|e: (K, V)| e.0)
}

/// `i` is the first position of `s` whose key compares equal to `k`.
pub open spec fn is_first_match<K: PartialEq>(s: Seq<K>, k: K, i: int) -> bool {
    &&& 0 <= i < s.len()
    &&& s[i].eq_spec(&k)
    &&& forall|j: int| 0 <= j < i ==> !(#[trigger] s[j]).eq_spec(&k)
}

/// The first position of `s` whose key compares equal to `k`, if any.
pub open spec fn position<K: PartialEq>(s: Seq<K>, k: K) -> Option<int> {
    if exists|i: int| is_first_match(s, k, i) {
        Some(choose|i: int| is_first_match(s, k, i))
    } else {
        None
    }
}

/// An index found by a scan, as an integer.
pub open spec fn as_index(r: Option<usize>) -> Option<int> {
    match r {
        Some(i) => Some(i as int),
        None => None,
    }
}

/// The value behind a found reference, if any.
pub open spec fn value_of<V>(r: Option<&V>) -> Option<V> {
    match r {
        Some(v) => Some(*v),
        None => None,
    }
}

/// The sequence with its element at `i` moved to the front.
pub open spec fn to_front<T>(s: Seq<T>, i: int) -> Seq<T> {
    seq![s[i]] + s.remove(i)
}

/// The sequence without its last element, or unchanged when it is empty.
pub open spec fn drop_back<T>(s: Seq<T>) -> Seq<T> {
    if s.len() > 0 {
        s.drop_last()
    } else {
        s
    }
}

/// A capacity, where a capacity of zero still lets one element through.
pub open spec fn room(max: nat) -> nat {
    if max == 0 {
        1
    } else {
        max
    }
}

impl<K: PartialEq, V> CacheState<K, V> {
    /// The capacities that a cache of `size` entries gets.
    pub open spec fn sized(self, size: nat) -> bool {
        &&& self.max_recent == (if size / 4 > 1 { size / 4 } else { 1 })
        &&& self.max_frequent == size - self.max_recent
        &&& self.max_ghost == size / 2
    }

    /// The state is one that a cache can be in.
    ///
    /// A ghost promotion into a `frequent` of capacity zero, or an eviction
    /// into a ghost list of capacity zero, still stores its one element: only
    /// the cache of size one has such capacities.
    pub open spec fn valid(self) -> bool {
        &&& self.max_recent >= 1
        &&& self.max_recent + room(self.max_frequent) <= usize::MAX
        &&& self.max_ghost < usize::MAX
        &&& self.recent.len() <= self.max_recent
        &&& self.frequent.len() <= room(self.max_frequent)
        &&& self.ghost_keys.len() <= room(self.max_ghost)
    }

    /// The same capacities, with the given segments.
    pub open spec fn with_segments(
        self,
        recent: Seq<(K, V)>,
        frequent: Seq<(K, V)>,
        ghost_keys: Seq<K>,
    ) -> Self {
        CacheState {
            recent,
            frequent,
            ghost_keys,
            max_recent: self.max_recent,
            max_frequent: self.max_frequent,
            max_ghost: self.max_ghost,
        }
    }

    /// The number of live entries.
    pub open spec fn len(self) -> nat {
        self.recent.len() + self.frequent.len()
    }

    /// `k` is live: it compares equal to a key of `recent` or `frequent`.
    pub open spec fn contains(self, k: K) -> bool {
        position(keys(self.recent), k) is Some || position(keys(self.frequent), k) is Some
    }

    /// The value of `k`, looked up in `recent` first, then in `frequent`.
    pub open spec fn lookup(self, k: K) -> Option<V> {
        match position(keys(self.recent), k) {
            Some(i) => Some(self.recent[i].1),
            None => match position(keys(self.frequent), k) {
                Some(j) => Some(self.frequent[j].1),
                None => None,
            },
        }
    }

    /// The entry of `frequent` at `j` moved to the front.
    pub open spec fn promote(self, j: int) -> Self {
        self.with_segments(self.recent, to_front(self.frequent, j), self.ghost_keys)
    }

    /// The state after a promoting read of `k`: a hit in `frequent` that is
    /// not in `recent` moves to the front; anything else changes nothing.
    pub open spec fn touch(self, k: K) -> Self {
        match position(keys(self.recent), k) {
            Some(_) => self,
            None => match position(keys(self.frequent), k) {
                Some(j) => self.promote(j),
                None => self,
            },
        }
    }

    /// Where `k` stands, checked in the order frequent, recent, ghost.
    pub open spec fn classify(self, k: K) -> Slot {
        match position(keys(self.frequent), k) {
            Some(j) => Slot::Frequent(j),
            None => match position(keys(self.recent), k) {
                Some(i) => Slot::Recent(i),
                None => match position(self.ghost_keys, k) {
                    Some(g) => Slot::Remembered(g),
                    None => Slot::Unknown,
                },
            },
        }
    }

    /// The state once `k` has been classified for an entry view: a hit in
    /// `frequent` is moved to its front.
    pub open spec fn entered(self, k: K) -> Self {
        match self.classify(k) {
            Slot::Frequent(j) => self.promote(j),
            _ => self,
        }
    }

    /// `recent` with the value at `i` replaced.
    pub open spec fn set_recent_value(self, i: int, v: V) -> Self {
        let recent = self.recent.update(i, (self.recent[i].0, v));
        self.with_segments(recent, self.frequent, self.ghost_keys)
    }

    /// `frequent` with the value at `j` replaced.
    pub open spec fn set_frequent_value(self, j: int, v: V) -> Self {
        let frequent = self.frequent.update(j, (self.frequent[j].0, v));
        self.with_segments(self.recent, frequent, self.ghost_keys)
    }

    /// A key remembered in the ghost list at `g` comes back: it leaves the
    /// ghost list and enters the front of `frequent`, whose back entry is
    /// dropped when `frequent` is full.
    pub open spec fn admit_from_ghost(self, g: int, k: K, v: V) -> Self {
        let kept = if self.frequent.len() + 1 > self.max_frequent {
            drop_back(self.frequent)
        } else {
            self.frequent
        };
        self.with_segments(self.recent, seq![(k, v)] + kept, self.ghost_keys.remove(g))
    }

    /// A key seen for the first time enters the front of `recent`; when
    /// `recent` is full its back entry is evicted and its key enters the front
    /// of the ghost list, whose back key is dropped when it is full.
    pub open spec fn admit_new(self, k: K, v: V) -> Self {
        if self.recent.len() + 1 > self.max_recent && self.recent.len() > 0 {
            let evicted = self.recent.last().0;
            let ghost_keys = if self.ghost_keys.len() + 1 > self.max_ghost {
                drop_back(self.ghost_keys)
            } else {
                self.ghost_keys
            };
            self.with_segments(
                seq![(k, v)] + self.recent.drop_last(),
                self.frequent,
                seq![evicted] + ghost_keys,
            )
        } else {
            self.with_segments(seq![(k, v)] + self.recent, self.frequent, self.ghost_keys)
        }
    }

    /// The state after `insert(k, v)`: a live key keeps its segment and gets
    /// the new value (a hit in `frequent` also moves to its front); a vacant
    /// key is admitted by the 2Q policy.
    pub open spec fn insert(self, k: K, v: V) -> Self {
        match self.classify(k) {
            Slot::Frequent(j) => self.promote(j).set_frequent_value(0, v),
            Slot::Recent(i) => self.set_recent_value(i, v),
            Slot::Remembered(g) => self.admit_from_ghost(g, k, v),
            Slot::Unknown => self.admit_new(k, v),
        }
    }

    /// The value that `insert(k, _)` replaces, if `k` is live.
    pub open spec fn previous(self, k: K) -> Option<V> {
        match self.classify(k) {
            Slot::Frequent(j) => Some(self.frequent[j].1),
            Slot::Recent(i) => Some(self.recent[i].1),
            _ => None,
        }
    }

    /// The state after `remove(k)`: the first match in `recent`, else in
    /// `frequent`, is deleted; the ghost list is never touched.
    pub open spec fn remove(self, k: K) -> Self {
        match position(keys(self.recent), k) {
            Some(i) => self.with_segments(self.recent.remove(i), self.frequent, self.ghost_keys),
            None => match position(keys(self.frequent), k) {
                Some(j) => self.with_segments(
                    self.recent,
                    self.frequent.remove(j),
                    self.ghost_keys,
                ),
                None => self,
            },
        }
    }

    /// Admission from `ghost` stores its value at the front of `frequent`.
    pub proof fn lemma_admit_from_ghost_value(self, g: int, k: K, v: V, w: V)
        ensures
            self.admit_from_ghost(g, k, w)
                == self.admit_from_ghost(g, k, v).set_frequent_value(0, w),
    {
        assert(self.admit_from_ghost(g, k, w).frequent =~= self.admit_from_ghost(
            g,
            k,
            v,
        ).set_frequent_value(0, w).frequent);
    }

    /// Admission of a new key stores its value at the front of `recent`.
    pub proof fn lemma_admit_new_value(self, k: K, v: V, w: V)
        ensures
            self.admit_new(k, w) == self.admit_new(k, v).set_recent_value(0, w),
    {
        assert(self.admit_new(k, w).recent =~= self.admit_new(k, v).set_recent_value(0, w).recent);
    }

    /// All entries, `recent` then `frequent`.
    pub open spec fn entries(self) -> Seq<(K, V)> {
        self.recent + self.frequent
    }
}

/// A key that matches somewhere has a position, at or before that place.
pub proof fn lemma_match_has_position<K: PartialEq>(s: Seq<K>, k: K, j: int)
    requires
        0 <= j < s.len(),
        s[j].eq_spec(&k),
    ensures
        position(s, k) is Some,
        position(s, k)->0 <= j,
    decreases j,
{
    if forall|t: int| 0 <= t < j ==> !(#[trigger] s[t]).eq_spec(&k) {
        lemma_position_is(s, k, j);
    } else {
        let t = choose|t: int| 0 <= t < j && (#[trigger] s[t]).eq_spec(&k);
        lemma_match_has_position(s, k, t);
    }
}

/// Without a position, no element matches.
pub proof fn lemma_no_position<K: PartialEq>(s: Seq<K>, k: K)
    requires
        position(s, k) is None,
    ensures
        forall|j: int| 0 <= j < s.len() ==> !(#[trigger] s[j]).eq_spec(&k),
{
    assert forall|j: int| 0 <= j < s.len() implies !(#[trigger] s[j]).eq_spec(&k) by {
        if s[j].eq_spec(&k) {
            lemma_match_has_position(s, k, j);
        }
    }
}

/// A first match is unique.
pub proof fn lemma_first_match_unique<K: PartialEq>(s: Seq<K>, k: K, i: int, j: int)
    requires
        is_first_match(s, k, i),
        is_first_match(s, k, j),
    ensures
        i == j,
{
    if i < j {
        assert(!s[i].eq_spec(&k));
    } else if j < i {
        assert(!s[j].eq_spec(&k));
    }
}

/// A first match is the position.
pub proof fn lemma_position_is<K: PartialEq>(s: Seq<K>, k: K, i: int)
    requires
        is_first_match(s, k, i),
    ensures
        position(s, k) == Some(i),
{
    let c = choose|c: int| is_first_match(s, k, c);
    lemma_first_match_unique(s, k, i, c);
}

/// With no match, there is no position.
pub proof fn lemma_position_none<K: PartialEq>(s: Seq<K>, k: K)
    requires
        forall|j: int| 0 <= j < s.len() ==> !(#[trigger] s[j]).eq_spec(&k),
    ensures
        position(s, k) is None,
{
    if exists|i: int| is_first_match(s, k, i) {
        let c = choose|c: int| is_first_match(s, k, c);
        assert(s[c].eq_spec(&k));
    }
}

/// A position is a first match.
pub proof fn lemma_position_some<K: PartialEq>(s: Seq<K>, k: K)
    requires
        position(s, k) is Some,
    ensures
        is_first_match(s, k, position(s, k)->0),
{
}

} // verus!
