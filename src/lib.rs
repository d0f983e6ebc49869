//! A bounded key-value cache with the 2Q replacement policy.
//!
//! Keys seen once live in a short `recent` queue; a key that comes back while
//! its eviction from `recent` is still remembered in the `ghost` list is
//! promoted into the `frequent` segment, which is kept in LRU order.
//!
//! Lookups compare keys with `==` only. The contracts state results over the
//! model in `model` wherever `K`'s `==` has a specification
//! (`K::obeys_eq_spec()`); the laws in `laws` also ask that it be an
//! equivalence.

pub mod model;
pub mod cache;
pub mod entry;
pub mod iter;
pub mod laws;

pub use cache::Cache;
pub use entry::{Entry, OccupiedEntry, OccupiedKind, VacantEntry, VacantKind};
pub use iter::Iter;
pub use model::{CacheState, Slot};
