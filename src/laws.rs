//! Laws of the 2Q policy, stated over the model and proved.

use vstd::prelude::*;
use vstd::std_specs::cmp::PartialEqSpec;
use vstd::laws_eq::{obeys_eq, obeys_eq_spec_properties};
use crate::model::{
    keys,
    lemma_no_position,
    lemma_position_is,
    lemma_position_none,
    lemma_position_some,
    position,
    to_front,
    CacheState,
    Slot,
};

verus! {

/// One operation on a cache, as its effect on the model.
pub enum Operation<K, V> {
    Insert(K, V),
    Get(K),
    Remove(K),
    Clear,
}

impl<K: PartialEq, V> CacheState<K, V> {
    /// The state after one operation.
    pub open spec fn apply(self, op: Operation<K, V>) -> Self {
        match op {
            Operation::Insert(k, v) => self.insert(k, v),
            Operation::Get(k) => self.touch(k),
            Operation::Remove(k) => self.remove(k),
            Operation::Clear => self.with_segments(Seq::empty(), Seq::empty(), Seq::empty()),
        }
    }

    /// The state after a sequence of operations, first to last.
    pub open spec fn run(self, ops: Seq<Operation<K, V>>) -> Self
        decreases ops.len(),
    {
        if ops.len() == 0 {
            self
        } else {
            self.apply(ops[0]).run(ops.drop_first())
        }
    }

    /// The capacities are those of `other`.
    pub open spec fn same_capacities(self, other: Self) -> bool {
        &&& self.max_recent == other.max_recent
        &&& self.max_frequent == other.max_frequent
        &&& self.max_ghost == other.max_ghost
    }
}

proof fn lemma_classify_in_range<K: PartialEq, V>(st: CacheState<K, V>, k: K)
    ensures
        match st.classify(k) {
            Slot::Frequent(j) => 0 <= j < st.frequent.len(),
            Slot::Recent(i) => 0 <= i < st.recent.len(),
            Slot::Remembered(g) => 0 <= g < st.ghost_keys.len(),
            Slot::Unknown => true,
        },
{
    if position(keys(st.frequent), k) is Some {
        lemma_position_some(keys(st.frequent), k);
    } else if position(keys(st.recent), k) is Some {
        lemma_position_some(keys(st.recent), k);
    } else if position(st.ghost_keys, k) is Some {
        lemma_position_some(st.ghost_keys, k);
    }
}

proof fn lemma_lookup_in_range<K: PartialEq, V>(st: CacheState<K, V>, k: K)
    ensures
        position(keys(st.recent), k) matches Some(i) ==> 0 <= i < st.recent.len(),
        position(keys(st.frequent), k) matches Some(j) ==> 0 <= j < st.frequent.len(),
{
    if position(keys(st.recent), k) is Some {
        lemma_position_some(keys(st.recent), k);
    }
    if position(keys(st.frequent), k) is Some {
        lemma_position_some(keys(st.frequent), k);
    }
}

/// One operation keeps a valid state valid, with the same capacities.
pub proof fn lemma_apply_valid<K: PartialEq, V>(st: CacheState<K, V>, op: Operation<K, V>)
    requires
        st.valid(),
    ensures
        st.apply(op).valid(),
        st.apply(op).same_capacities(st),
{
    match op {
        Operation::Insert(k, v) => lemma_classify_in_range(st, k),
        Operation::Get(k) => lemma_lookup_in_range(st, k),
        Operation::Remove(k) => lemma_lookup_in_range(st, k),
        Operation::Clear => {},
    }
}

/// Whatever sequence of operations runs on a cache, `recent` stays within
/// its capacity, and so does `frequent` where its capacity is not zero.
pub proof fn law_capacities_hold<K: PartialEq, V>(st: CacheState<K, V>, ops: Seq<Operation<K, V>>)
    requires
        st.valid(),
    ensures
        st.run(ops).valid(),
        st.run(ops).same_capacities(st),
        st.run(ops).recent.len() <= st.max_recent,
        st.max_frequent > 0 ==> st.run(ops).frequent.len() <= st.max_frequent,
    decreases ops.len(),
{
    if ops.len() > 0 {
        lemma_apply_valid(st, ops[0]);
        law_capacities_hold(st.apply(ops[0]), ops.drop_first());
    }
}

impl<K: PartialEq, V> CacheState<K, V> {
    /// No key of `recent` compares equal to a key of `frequent`, either way
    /// round.
    pub open spec fn segments_disjoint(self) -> bool {
        forall|i: int, j: int|
            0 <= i < self.recent.len() && 0 <= j < self.frequent.len() ==> {
                &&& !(#[trigger] self.recent[i]).0.eq_spec(&(#[trigger] self.frequent[j]).0)
                &&& !self.frequent[j].0.eq_spec(&self.recent[i].0)
            }
    }
}

/// Promoting an entry of `frequent` keeps the segments disjoint.
proof fn lemma_promote_disjoint<K: PartialEq, V>(st: CacheState<K, V>, j: int)
    requires
        st.segments_disjoint(),
        0 <= j < st.frequent.len(),
    ensures
        st.promote(j).segments_disjoint(),
{
    let f2 = st.promote(j).frequent;
    assert forall|i: int, t: int|
        0 <= i < st.recent.len() && 0 <= t < f2.len() implies {
            &&& !(#[trigger] st.recent[i]).0.eq_spec(&(#[trigger] f2[t]).0)
            &&& !f2[t].0.eq_spec(&st.recent[i].0)
        } by {
        let u = if t == 0 {
            j
        } else if t - 1 < j {
            t - 1
        } else {
            t
        };
        assert(f2[t] == st.frequent[u]);
    }
}

/// One operation keeps the segments disjoint.
pub proof fn lemma_apply_disjoint<K: PartialEq, V>(st: CacheState<K, V>, op: Operation<K, V>)
    requires
        obeys_eq::<K>(),
        st.segments_disjoint(),
    ensures
        st.apply(op).segments_disjoint(),
{
    reveal(obeys_eq_spec_properties);
    let r = st.recent;
    let f = st.frequent;
    match op {
        Operation::Insert(k, v) => {
            lemma_classify_in_range(st, k);
            let s2 = st.insert(k, v);
            match st.classify(k) {
                Slot::Frequent(j) => {
                    lemma_promote_disjoint(st, j);
                    let p = st.promote(j);
                    assert forall|i: int, t: int|
                        0 <= i < s2.recent.len() && 0 <= t < s2.frequent.len() implies {
                            &&& !(#[trigger] s2.recent[i]).0.eq_spec(&(#[trigger] s2.frequent[t]).0)
                            &&& !s2.frequent[t].0.eq_spec(&s2.recent[i].0)
                        } by {
                        assert(s2.frequent[t].0 == p.frequent[t].0);
                        assert(s2.recent[i] == p.recent[i]);
                    }
                },
                Slot::Recent(i0) => {
                    assert forall|i: int, t: int|
                        0 <= i < s2.recent.len() && 0 <= t < s2.frequent.len() implies {
                            &&& !(#[trigger] s2.recent[i]).0.eq_spec(&(#[trigger] s2.frequent[t]).0)
                            &&& !s2.frequent[t].0.eq_spec(&s2.recent[i].0)
                        } by {
                        assert(s2.recent[i].0 == r[i].0);
                        assert(s2.frequent[t] == f[t]);
                    }
                },
                Slot::Remembered(g) => {
                    lemma_no_position(keys(r), k);
                    assert forall|i: int, t: int|
                        0 <= i < s2.recent.len() && 0 <= t < s2.frequent.len() implies {
                            &&& !(#[trigger] s2.recent[i]).0.eq_spec(&(#[trigger] s2.frequent[t]).0)
                            &&& !s2.frequent[t].0.eq_spec(&s2.recent[i].0)
                        } by {
                        assert(s2.recent[i] == r[i]);
                        assert(keys(r)[i] == r[i].0);
                        if t > 0 {
                            assert(s2.frequent[t] == f[t - 1]);
                        }
                    }
                },
                Slot::Unknown => {
                    lemma_no_position(keys(f), k);
                    assert forall|i: int, t: int|
                        0 <= i < s2.recent.len() && 0 <= t < s2.frequent.len() implies {
                            &&& !(#[trigger] s2.recent[i]).0.eq_spec(&(#[trigger] s2.frequent[t]).0)
                            &&& !s2.frequent[t].0.eq_spec(&s2.recent[i].0)
                        } by {
                        assert(s2.frequent[t] == f[t]);
                        assert(keys(f)[t] == f[t].0);
                        if i > 0 {
                            assert(s2.recent[i] == r[i - 1]);
                        }
                    }
                },
            }
        },
        Operation::Get(k) => {
            lemma_lookup_in_range(st, k);
            if position(keys(r), k) is None {
                if let Some(j) = position(keys(f), k) {
                    lemma_promote_disjoint(st, j);
                }
            }
        },
        Operation::Remove(k) => {
            lemma_lookup_in_range(st, k);
            let s2 = st.remove(k);
            if let Some(i0) = position(keys(r), k) {
                assert forall|i: int, t: int|
                    0 <= i < s2.recent.len() && 0 <= t < s2.frequent.len() implies {
                        &&& !(#[trigger] s2.recent[i]).0.eq_spec(&(#[trigger] s2.frequent[t]).0)
                        &&& !s2.frequent[t].0.eq_spec(&s2.recent[i].0)
                    } by {
                    assert(s2.recent[i] == r[if i < i0 { i } else { i + 1 }]);
                    assert(s2.frequent[t] == f[t]);
                }
            } else if let Some(j0) = position(keys(f), k) {
                assert forall|i: int, t: int|
                    0 <= i < s2.recent.len() && 0 <= t < s2.frequent.len() implies {
                        &&& !(#[trigger] s2.recent[i]).0.eq_spec(&(#[trigger] s2.frequent[t]).0)
                        &&& !s2.frequent[t].0.eq_spec(&s2.recent[i].0)
                    } by {
                    assert(s2.recent[i] == r[i]);
                    assert(s2.frequent[t] == f[if t < j0 { t } else { t + 1 }]);
                }
            }
        },
        Operation::Clear => {},
    }
}

/// Whatever sequence of operations runs on a cache whose keys compare as an
/// equivalence, no key is ever live in both `recent` and `frequent`.
pub proof fn law_segments_stay_disjoint<K: PartialEq, V>(
    st: CacheState<K, V>,
    ops: Seq<Operation<K, V>>,
)
    requires
        obeys_eq::<K>(),
        st.segments_disjoint(),
    ensures
        st.run(ops).segments_disjoint(),
    decreases ops.len(),
{
    if ops.len() > 0 {
        lemma_apply_disjoint(st, ops[0]);
        law_segments_stay_disjoint(st.apply(ops[0]), ops.drop_first());
    }
}

/// In disjoint segments, a key that matches in `frequent` matches nothing in
/// `recent`.
proof fn lemma_frequent_hit_not_recent<K: PartialEq, V>(st: CacheState<K, V>, k: K, j: int)
    requires
        obeys_eq::<K>(),
        st.segments_disjoint(),
        0 <= j < st.frequent.len(),
        st.frequent[j].0.eq_spec(&k),
    ensures
        position(keys(st.recent), k) is None,
{
    reveal(obeys_eq_spec_properties);
    assert forall|i: int| 0 <= i < keys(st.recent).len() implies !(#[trigger] keys(
        st.recent,
    )[i]).eq_spec(&k) by {
        assert(keys(st.recent)[i] == st.recent[i].0);
        assert(!st.recent[i].0.eq_spec(&st.frequent[j].0));
    }
    lemma_position_none(keys(st.recent), k);
}

/// After `insert(k, v)`, looking `k` up gives `v`, where `k` was live or
/// compares equal to itself.
proof fn lemma_lookup_after_insert<K: PartialEq, V>(st: CacheState<K, V>, k: K, v: V)
    requires
        obeys_eq::<K>(),
        st.segments_disjoint(),
        st.contains(k) || k.eq_spec(&k),
    ensures
        st.insert(k, v).lookup(k) == Some(v),
{
    lemma_classify_in_range(st, k);
    let s2 = st.insert(k, v);
    match st.classify(k) {
        Slot::Frequent(j) => {
            lemma_position_some(keys(st.frequent), k);
            lemma_frequent_hit_not_recent(st, k, j);
            assert(keys(s2.recent) == keys(st.recent));
            assert(keys(s2.frequent)[0] == st.frequent[j].0);
            lemma_position_is(keys(s2.frequent), k, 0);
        },
        Slot::Recent(i) => {
            lemma_position_some(keys(st.recent), k);
            assert(keys(s2.recent) =~= keys(st.recent));
        },
        Slot::Remembered(g) => {
            assert(s2.recent == st.recent);
            assert(keys(s2.frequent)[0] == k);
            lemma_position_is(keys(s2.frequent), k, 0);
        },
        Slot::Unknown => {
            assert(keys(s2.recent)[0] == k);
            lemma_position_is(keys(s2.recent), k, 0);
        },
    }
}

/// A key just inserted is found with the value it was inserted with.
pub proof fn law_insert_then_get<K: PartialEq, V>(st: CacheState<K, V>, k: K, v: V)
    requires
        obeys_eq::<K>(),
        k.eq_spec(&k),
        st.segments_disjoint(),
    ensures
        st.insert(k, v).lookup(k) == Some(v),
        st.insert(k, v).touch(k).lookup(k) == Some(v),
{
    lemma_lookup_after_insert(st, k, v);
    lemma_touch_keeps_lookup(st.insert(k, v), k);
}

/// A promoting read changes no value that a lookup finds.
proof fn lemma_touch_keeps_lookup<K: PartialEq, V>(st: CacheState<K, V>, k: K)
    ensures
        st.touch(k).lookup(k) == st.lookup(k),
{
    lemma_lookup_in_range(st, k);
    if position(keys(st.recent), k) is None {
        if let Some(j) = position(keys(st.frequent), k) {
            let s2 = st.touch(k);
            lemma_position_some(keys(st.frequent), k);
            assert(s2.recent == st.recent);
            assert(keys(s2.frequent)[0] == st.frequent[j].0);
            lemma_position_is(keys(s2.frequent), k, 0);
        }
    }
}

/// Inserting a live key returns its previous value and stores the new one in
/// the same segment: no segment changes length, the keys of `recent` stay as
/// they were, and `ghost` is untouched.
pub proof fn law_reinsert_updates_in_place<K: PartialEq, V>(st: CacheState<K, V>, k: K, v: V)
    requires
        obeys_eq::<K>(),
        st.segments_disjoint(),
        st.contains(k),
    ensures
        st.previous(k) == st.lookup(k),
        st.previous(k) is Some,
        st.insert(k, v).lookup(k) == Some(v),
        st.insert(k, v).recent.len() == st.recent.len(),
        st.insert(k, v).frequent.len() == st.frequent.len(),
        keys(st.insert(k, v).recent) == keys(st.recent),
        st.insert(k, v).ghost_keys == st.ghost_keys,
{
    lemma_classify_in_range(st, k);
    lemma_lookup_after_insert(st, k, v);
    let s2 = st.insert(k, v);
    if let Some(j) = position(keys(st.frequent), k) {
        lemma_position_some(keys(st.frequent), k);
        lemma_frequent_hit_not_recent(st, k, j);
    } else {
        assert(keys(s2.recent) =~= keys(st.recent));
    }
}

/// Admitting an unknown key into a full `recent` evicts its back entry, whose
/// key is remembered at the front of `ghost`.
pub proof fn law_eviction_is_remembered<K: PartialEq, V>(st: CacheState<K, V>, k: K, v: V)
    requires
        st.classify(k) == Slot::Unknown,
        st.recent.len() >= st.max_recent,
        st.recent.len() > 0,
    ensures
        st.insert(k, v).ghost_keys.len() > 0,
        st.insert(k, v).ghost_keys[0] == st.recent.last().0,
        st.insert(k, v).recent == seq![(k, v)] + st.recent.drop_last(),
        st.insert(k, v).frequent == st.frequent,
{
}

/// Inserting a key that is not live and is still remembered in `ghost` at
/// `g` puts it at the front of `frequent` and takes it out of `ghost`;
/// `recent` is untouched.
pub proof fn law_remembered_key_is_promoted<K: PartialEq, V>(
    st: CacheState<K, V>,
    k: K,
    v: V,
    g: int,
)
    requires
        !st.contains(k),
        position(st.ghost_keys, k) == Some(g),
    ensures
        st.insert(k, v).frequent[0] == (k, v),
        st.insert(k, v).ghost_keys == st.ghost_keys.remove(g),
        st.insert(k, v).recent == st.recent,
{
    assert(st.classify(k) == Slot::Remembered(g));
}

/// A read of a key that is live in `frequent` moves its entry to the front
/// of `frequent`.
pub proof fn law_read_promotes_frequent_hit<K: PartialEq, V>(st: CacheState<K, V>, k: K, j: int)
    requires
        obeys_eq::<K>(),
        st.segments_disjoint(),
        position(keys(st.frequent), k) == Some(j),
    ensures
        st.touch(k).frequent == to_front(st.frequent, j),
        st.touch(k).frequent[0] == st.frequent[j],
        st.touch(k).recent == st.recent,
        st.touch(k).ghost_keys == st.ghost_keys,
{
    lemma_position_some(keys(st.frequent), k);
    lemma_frequent_hit_not_recent(st, k, j);
}

/// No read reorders `recent`.
pub proof fn law_read_keeps_recent_order<K: PartialEq, V>(st: CacheState<K, V>, k: K)
    ensures
        st.touch(k).recent == st.recent,
        st.touch(k).ghost_keys == st.ghost_keys,
{
}

/// Removal never adds a key to `ghost`: it leaves `ghost` as it was.
pub proof fn law_remove_keeps_ghost<K: PartialEq, V>(st: CacheState<K, V>, k: K)
    ensures
        st.remove(k).ghost_keys == st.ghost_keys,
{
}

/// No two positions of `s` hold keys that compare equal.
pub open spec fn all_distinct<K: PartialEq>(s: Seq<K>) -> bool {
    forall|a: int, b: int|
        #![trigger s[a], s[b]]
        0 <= a < s.len() && 0 <= b < s.len() && a != b ==> !s[a].eq_spec(&s[b])
}

/// No key of `a` compares equal to a key of `b`, either way round.
pub open spec fn apart<K: PartialEq>(a: Seq<K>, b: Seq<K>) -> bool {
    forall|i: int, j: int|
        #![trigger a[i], b[j]]
        0 <= i < a.len() && 0 <= j < b.len() ==> {
            &&& !a[i].eq_spec(&b[j])
            &&& !b[j].eq_spec(&a[i])
        }
}

impl<K: PartialEq, V> CacheState<K, V> {
    /// `recent` holds each key once, the ghost list remembers each key once,
    /// and it remembers none that is in `recent`.
    pub open spec fn ghost_consistent(self) -> bool {
        &&& all_distinct(keys(self.recent))
        &&& all_distinct(self.ghost_keys)
        &&& apart(keys(self.recent), self.ghost_keys)
    }
}

/// One operation keeps the ghost list consistent with `recent`.
pub proof fn lemma_apply_ghost_consistent<K: PartialEq, V>(
    st: CacheState<K, V>,
    op: Operation<K, V>,
)
    requires
        obeys_eq::<K>(),
        st.ghost_consistent(),
    ensures
        st.apply(op).ghost_consistent(),
{
    reveal(obeys_eq_spec_properties);
    let r = st.recent;
    let kr = keys(r);
    let gh = st.ghost_keys;
    let s2 = st.apply(op);
    let kr2 = keys(s2.recent);
    let gh2 = s2.ghost_keys;
    match op {
        Operation::Insert(k, v) => {
            lemma_classify_in_range(st, k);
            match st.classify(k) {
                Slot::Frequent(j) => {
                    assert(kr2 =~= kr);
                },
                Slot::Recent(i0) => {
                    assert(kr2 =~= kr);
                },
                Slot::Remembered(g) => {
                    assert(kr2 =~= kr);
                    assert forall|a: int, b: int|
                        #![trigger gh2[a], gh2[b]]
                        0 <= a < gh2.len() && 0 <= b < gh2.len() && a != b implies
                            !gh2[a].eq_spec(&gh2[b]) by {
                        assert(gh2[a] == gh[if a < g { a } else { a + 1 }]);
                        assert(gh2[b] == gh[if b < g { b } else { b + 1 }]);
                    }
                    assert forall|i: int, t: int|
                        #![trigger kr2[i], gh2[t]]
                        0 <= i < kr2.len() && 0 <= t < gh2.len() implies {
                        &&& !kr2[i].eq_spec(&gh2[t])
                        &&& !gh2[t].eq_spec(&kr2[i])
                    } by {
                        assert(gh2[t] == gh[if t < g { t } else { t + 1 }]);
                        assert(kr2[i] == kr[i]);
                    }
                },
                Slot::Unknown => {
                    lemma_no_position(kr, k);
                    lemma_no_position(gh, k);
                    let evicting = r.len() + 1 > st.max_recent && r.len() > 0;
                    assert forall|a: int, b: int|
                        #![trigger kr2[a], kr2[b]]
                        0 <= a < kr2.len() && 0 <= b < kr2.len() && a != b implies
                            !kr2[a].eq_spec(&kr2[b]) by {
                        if a > 0 {
                            assert(kr2[a] == kr[a - 1]);
                        } else {
                            assert(kr2[a] == k);
                        }
                        if b > 0 {
                            assert(kr2[b] == kr[b - 1]);
                        } else {
                            assert(kr2[b] == k);
                        }
                    }
                    if evicting {
                        let e = r.last().0;
                        assert(kr[r.len() - 1] == e);
                        assert forall|a: int, b: int|
                            #![trigger gh2[a], gh2[b]]
                            0 <= a < gh2.len() && 0 <= b < gh2.len() && a != b implies
                                !gh2[a].eq_spec(&gh2[b]) by {
                            if a > 0 {
                                assert(gh2[a] == gh[a - 1]);
                            } else {
                                assert(gh2[a] == e);
                            }
                            if b > 0 {
                                assert(gh2[b] == gh[b - 1]);
                            } else {
                                assert(gh2[b] == e);
                            }
                        }
                        assert forall|i: int, t: int|
                                #![trigger kr2[i], gh2[t]]
                                0 <= i < kr2.len() && 0 <= t < gh2.len() implies {
                                &&& !kr2[i].eq_spec(&gh2[t])
                                &&& !gh2[t].eq_spec(&kr2[i])
                            } by {
                            if i > 0 {
                                assert(kr2[i] == kr[i - 1]);
                            } else {
                                assert(kr2[i] == k);
                            }
                            if t > 0 {
                                assert(gh2[t] == gh[t - 1]);
                            } else {
                                assert(gh2[t] == e);
                            }
                        }
                    } else {
                        assert(gh2 == gh);
                        assert forall|i: int, t: int|
                                #![trigger kr2[i], gh2[t]]
                                0 <= i < kr2.len() && 0 <= t < gh2.len() implies {
                                &&& !kr2[i].eq_spec(&gh2[t])
                                &&& !gh2[t].eq_spec(&kr2[i])
                            } by {
                            if i > 0 {
                                assert(kr2[i] == kr[i - 1]);
                            } else {
                                assert(kr2[i] == k);
                            }
                        }
                    }
                },
            }
        },
        Operation::Get(k) => {
            assert(kr2 =~= kr);
        },
        Operation::Remove(k) => {
            lemma_lookup_in_range(st, k);
            if let Some(i0) = position(kr, k) {
                assert forall|a: int, b: int|
                    #![trigger kr2[a], kr2[b]]
                    0 <= a < kr2.len() && 0 <= b < kr2.len() && a != b implies
                        !kr2[a].eq_spec(&kr2[b]) by {
                    assert(kr2[a] == kr[if a < i0 { a } else { a + 1 }]);
                    assert(kr2[b] == kr[if b < i0 { b } else { b + 1 }]);
                }
                assert forall|i: int, t: int|
                    #![trigger kr2[i], gh2[t]]
                    0 <= i < kr2.len() && 0 <= t < gh2.len() implies {
                    &&& !kr2[i].eq_spec(&gh2[t])
                    &&& !gh2[t].eq_spec(&kr2[i])
                } by {
                    assert(kr2[i] == kr[if i < i0 { i } else { i + 1 }]);
                    assert(gh2[t] == gh[t]);
                }
            } else {
                assert(kr2 =~= kr);
            }
        },
        Operation::Clear => {},
    }
}

/// Whatever sequence of operations runs on a cache whose keys compare as an
/// equivalence, the ghost list remembers each key at most once and never a
/// key that is in `recent`.
pub proof fn law_ghost_stays_consistent<K: PartialEq, V>(
    st: CacheState<K, V>,
    ops: Seq<Operation<K, V>>,
)
    requires
        obeys_eq::<K>(),
        st.ghost_consistent(),
    ensures
        st.run(ops).ghost_consistent(),
    decreases ops.len(),
{
    if ops.len() > 0 {
        lemma_apply_ghost_consistent(st, ops[0]);
        law_ghost_stays_consistent(st.apply(ops[0]), ops.drop_first());
    }
}

/// A key promoted out of a consistent ghost list is no longer remembered
/// there.
pub proof fn law_promoted_key_leaves_ghost<K: PartialEq, V>(
    st: CacheState<K, V>,
    k: K,
    v: V,
    g: int,
)
    requires
        obeys_eq::<K>(),
        st.ghost_consistent(),
        !st.contains(k),
        position(st.ghost_keys, k) == Some(g),
    ensures
        position(st.insert(k, v).ghost_keys, k) is None,
{
    reveal(obeys_eq_spec_properties);
    lemma_position_some(st.ghost_keys, k);
    assert(st.classify(k) == Slot::Remembered(g));
    let gh = st.ghost_keys;
    let gh2 = st.insert(k, v).ghost_keys;
    assert forall|t: int| 0 <= t < gh2.len() implies !(#[trigger] gh2[t]).eq_spec(&k) by {
        let u = if t < g {
            t
        } else {
            t + 1
        };
        assert(gh2[t] == gh[u]);
        assert(!gh[u].eq_spec(&gh[g]));
    }
    lemma_position_none(gh2, k);
}

} // verus!
