//! A keyed store over `DashMap`, seen as the map from key views to values.
//!
//! A table has one owner: reading takes a shared reference and every change an exclusive one, so
//! what it holds is a value like any other.

use dashmap::DashMap;
use std::collections::hash_map::RandomState;
use std::hash::Hash;
use vstd::prelude::*;

verus! {

/// `dashmap::DashMap`, carried through without looking inside.
#[verifier::external_type_specification]
#[verifier::external_body]
#[verifier::reject_recursive_types(K)]
#[verifier::reject_recursive_types(V)]
#[verifier::reject_recursive_types(S)]
pub struct ExDashMap<K, V, S>(dashmap::DashMap<K, V, S>);

/// The key types of a [`Table`].
///
/// Two keys of such a type are equal, and hash alike, exactly when their views are equal.
pub(crate) trait TableKey: View + Eq + Hash + Clone {

}

impl TableKey for u128 {

}

impl TableKey for [u8; 32] {

}

impl TableKey for String {

}

/// A `DashMap` together with the map that it stands for.
#[verifier::reject_recursive_types(K)]
#[verifier::reject_recursive_types(V)]
pub(crate) struct Table<K: TableKey, V> {
    inner: DashMap<K, V, RandomState>,
    contents: Ghost<Map<<K as View>::V, V>>,
}

impl<K: TableKey, V> View for Table<K, V> {
    type V = Map<<K as View>::V, V>;

    closed spec fn view(&self) -> Map<<K as View>::V, V> {
        self.contents@
    }
}

impl<K: TableKey, V> Table<K, V> {
    /// `DashMap::new`: a map that holds nothing.
    #[verifier::external_body]
    pub(crate) fn new() -> (r: Self)
        ensures
            r@.dom() == Set::<K::V>::empty(),
    {
        Table { inner: DashMap::new(), contents: Ghost(Map::empty()) }
    }

    /// `DashMap::insert`: the key now holds the value, whatever it held before, and no other key
    /// changes.
    #[verifier::external_body]
    pub(crate) fn insert(&mut self, key: K, value: V)
        ensures
            final(self)@ == old(self)@.insert(key@, value),
    {
        self.inner.insert(key, value);
    }

    /// `DashMap::remove`: hands out what the key held and forgets the key.
    #[verifier::external_body]
    pub(crate) fn remove(&mut self, key: &K) -> (r: Option<V>)
        ensures
            final(self)@ == old(self)@.remove(key@),
            r == (if old(self)@.contains_key(key@) { Some(old(self)@[key@]) } else { None }),
    {
        self.inner.remove(key).map(|pair| pair.1)
    }

    /// `DashMap::remove_if`: removes the key, as [`Table::remove`] does, exactly when it holds a
    /// value for which `test` answers `true`.
    #[verifier::external_body]
    pub(crate) fn remove_if(&mut self, key: &K, test: impl Fn(&V) -> bool) -> (r: Option<V>)
        requires
            old(self)@.contains_key(key@) ==> call_requires(test, (&old(self)@[key@],)),
        ensures
            match r {
                Some(value) => {
                    &&& old(self)@.contains_key(key@)
                    &&& value == old(self)@[key@]
                    &&& call_ensures(test, (&value,), true)
                    &&& final(self)@ == old(self)@.remove(key@)
                },
                None => {
                    &&& old(self)@.contains_key(key@) ==> call_ensures(
                        test,
                        (&old(self)@[key@],),
                        false,
                    )
                    &&& final(self)@ == old(self)@
                },
            },
    {
        self.inner.remove_if(key, |_key, value| test(value)).map(|pair| pair.1)
    }

    /// `DashMap::contains_key`.
    #[verifier::external_body]
    pub(crate) fn contains_key(&self, key: &K) -> (r: bool)
        ensures
            r == self@.contains_key(key@),
    {
        self.inner.contains_key(key)
    }

    /// `DashMap::get`: what `read` makes of the value that the key holds, if it holds one.
    #[verifier::external_body]
    pub(crate) fn peek<R>(&self, key: &K, read: impl Fn(&V) -> R) -> (r: Option<R>)
        requires
            self@.contains_key(key@) ==> call_requires(read, (&self@[key@],)),
        ensures
            match r {
                Some(x) => self@.contains_key(key@) && call_ensures(read, (&self@[key@],), x),
                None => !self@.contains_key(key@),
            },
    {
        self.inner.get(key).map(|entry| read(entry.value()))
    }

    /// `DashMap::retain`: keeps the entries for whose value `keep` answers `true`, unchanged, and
    /// drops those for whose value it answers `false`.
    #[verifier::external_body]
    pub(crate) fn retain(&mut self, keep: impl Fn(&V) -> bool)
        requires
            forall|k: K::V| #[trigger]
                old(self)@.contains_key(k) ==> call_requires(keep, (&old(self)@[k],)),
        ensures
            forall|k: K::V| #[trigger]
                final(self)@.contains_key(k) ==> old(self)@.contains_key(k) && final(self)@[k]
                    == old(self)@[k] && call_ensures(keep, (&old(self)@[k],), true),
            forall|k: K::V|
                #![trigger final(self)@.contains_key(k)]
                #![trigger old(self)@.contains_key(k)]
                old(self)@.contains_key(k) && !final(self)@.contains_key(k) ==> call_ensures(
                    keep,
                    (&old(self)@[k],),
                    false,
                ),
    {
        self.inner.retain(|_key, value| keep(value));
    }

    /// `DashMap::iter`: every key that holds a value, once each, in no particular order.
    #[verifier::external_body]
    pub(crate) fn keys(&self) -> (r: Vec<K>)
        ensures
            forall|i: int, j: int| 0 <= i < j < r@.len() ==> r@[i]@ != r@[j]@,
            forall|i: int| 0 <= i < r@.len() ==> self@.contains_key(#[trigger] r@[i]@),
            forall|k: K::V| #[trigger]
                self@.contains_key(k) ==> exists|i: int| 0 <= i < r@.len() && #[trigger] r@[i]@ == k,
    {
        self.inner.iter().map(|entry| entry.key().clone()).collect()
    }
}

} // verus!
