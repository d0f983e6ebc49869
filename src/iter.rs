//! Iteration over the live entries of a cache: `recent` then `frequent`, each
//! in its own order. Ghost keys are never handed out.

use vstd::prelude::*;
use crate::cache::Cache;

verus! {

/// A position in the live entries of a borrowed cache.
#[derive(Debug, Clone)]
pub struct Iter<'a, K, V> {
    cache: &'a Cache<K, V>,
    pos: usize,
}

impl<'a, K: PartialEq, V> Iter<'a, K, V> {
    /// All entries that the iteration walks, `recent` then `frequent`.
    pub closed spec fn items(self) -> Seq<(K, V)> {
        self.cache@.entries()
    }

    /// How many entries have been handed out.
    pub closed spec fn pos(self) -> nat {
        self.pos as nat
    }

    /// The position lies within the entries of a well-formed cache.
    pub closed spec fn wf(self) -> bool {
        &&& self.cache.wf()
        &&& self.pos <= self.items().len()
    }

    /// The next entry, if any is left.
    pub fn next(&mut self) -> (r: Option<(&'a K, &'a V)>)
        requires
            old(self).wf(),
        ensures
            final(self).wf(),
            final(self).items() == old(self).items(),
            match r {
                Some(p) => {
                    &&& old(self).pos() < old(self).items().len()
                    &&& *p.0 == old(self).items()[old(self).pos() as int].0
                    &&& *p.1 == old(self).items()[old(self).pos() as int].1
                    &&& final(self).pos() == old(self).pos() + 1
                },
                None => {
                    &&& old(self).pos() == old(self).items().len()
                    &&& final(self).pos() == old(self).pos()
                },
            },
    {
        let cache: &'a Cache<K, V> = self.cache;
        let n = cache.recent.len();
        if self.pos < n {
            let e: &'a (K, V) = &cache.recent[self.pos];
            self.pos = self.pos + 1;
            Some((&e.0, &e.1))
        } else if self.pos - n < cache.frequent.len() {
            let e: &'a (K, V) = &cache.frequent[self.pos - n];
            self.pos = self.pos + 1;
            Some((&e.0, &e.1))
        } else {
            None
        }
    }

    /// The number of entries left, exactly: as a lower and an upper bound.
    pub fn size_hint(&self) -> (r: (usize, Option<usize>))
        requires
            self.wf(),
        ensures
            r.0 == self.items().len() - self.pos(),
            r.1 == Some(r.0),
    {
        let left = self.cache.recent.len() + self.cache.frequent.len() - self.pos;
        (left, Some(left))
    }
}

impl<K: PartialEq, V> Cache<K, V> {
    /// An iteration over the live entries, `recent` then `frequent`.
    pub fn iter(&self) -> (it: Iter<'_, K, V>)
        requires
            self.wf(),
        ensures
            it.wf(),
            it.items() == self@.entries(),
            it.pos() == 0,
    {
        Iter { cache: self, pos: 0 }
    }
}

} // verus!
