//! The persistent map from paths to values, kept in rpds's hash trie map.
//!
//! Copies of a map share structure, so that the many environments alive
//! during a fixpoint computation stay cheap.

use crate::abstract_value::AbstractValue;
use crate::path::Path;
use rpds::HashTrieMap;
use vstd::prelude::*;

verus! {

/// A persistent map from paths to values: an rpds `HashTrieMap` that Verus
/// sees only through the bindings it holds. Keys are found by `Path`'s
/// derived `Hash` and its `==`, which is proved to be structural equality,
/// so the map's notion of "same key" is equality of paths.
#[verifier::external_body]
#[derive(PartialEq, Eq, Debug)]
pub struct ValueMap {
    map: HashTrieMap<Path, AbstractValue>,
}

/// The bindings that a value map holds.
pub uninterp spec fn map_contents(m: ValueMap) -> Map<Path, AbstractValue>;

impl View for ValueMap {
    type V = Map<Path, AbstractValue>;

    open spec fn view(&self) -> Map<Path, AbstractValue> {
        map_contents(*self)
    }
}

/// The map that binds nothing.
pub open spec fn no_bindings() -> Map<Path, AbstractValue> {
    Map::empty()
}

impl ValueMap {
    /// Relies on `HashTrieMap::new`: a new map binds nothing.
    #[verifier::external_body]
    pub fn new() -> (r: ValueMap)
        ensures
            map_contents(r) == no_bindings(),
    {
        ValueMap { map: HashTrieMap::new() }
    }

    /// Relies on `HashTrieMap::insert`: a copy of the map in which `key` is
    /// bound to `value`, whether or not it was bound before.
    #[verifier::external_body]
    pub fn insert(&self, key: Path, value: AbstractValue) -> (r: ValueMap)
        ensures
            map_contents(r) == map_contents(*self).insert(key, value),
    {
        ValueMap { map: self.map.insert(key, value) }
    }

    /// Relies on `HashTrieMap::remove`: a copy of the map without a binding
    /// for `key`.
    #[verifier::external_body]
    pub fn remove(&self, key: &Path) -> (r: ValueMap)
        ensures
            map_contents(r) == map_contents(*self).remove(*key),
    {
        ValueMap { map: self.map.remove(key) }
    }

    /// Relies on `HashTrieMap::get`: the value bound to `key`, if any.
    #[verifier::external_body]
    pub fn get(&self, key: &Path) -> (r: Option<&AbstractValue>)
        ensures
            match r {
                Some(v) => map_contents(*self).contains_key(*key) && *v == map_contents(*self)[*key],
                None => !map_contents(*self).contains_key(*key),
            },
    {
        self.map.get(key)
    }

    /// Relies on `HashTrieMap::contains_key`: whether `key` is bound.
    #[verifier::external_body]
    pub fn contains_key(&self, key: &Path) -> (r: bool)
        ensures
            r == map_contents(*self).contains_key(*key),
    {
        self.map.contains_key(key)
    }

    /// Relies on `HashTrieMap::size`: the number of keys bound.
    #[verifier::external_body]
    pub fn size(&self) -> (r: usize)
        ensures
            r == map_contents(*self).len(),
    {
        self.map.size()
    }

    /// Relies on `HashTrieMap::iter`: each binding once, in an order that
    /// the hasher decides.
    #[verifier::external_body]
    pub fn entries(&self) -> (r: Vec<(Path, AbstractValue)>)
        ensures
            forall|i: int|
                0 <= i < r.len() ==> map_contents(*self).contains_key(#[trigger] r[i].0)
                    && map_contents(*self)[r[i].0] == r[i].1,
            forall|k: Path|
                map_contents(*self).contains_key(k) ==> exists|i: int| 0 <= i < r.len() && #[trigger] r[i].0 == k,
    {
        self.map.iter().map(|(k, v)| (k.clone(), v.clone())).collect()
    }
}

} // verus!
