//! Tables of records, seen through the views of their keys and records.

use crate::table::{Table, TableKey};
use vstd::prelude::*;

verus! {

/// A record that can be read out of a [`Store`].
pub trait Record: View + Sized {
    /// A copy of the record.
    fn copy(&self) -> (r: Self)
        ensures
            r@ == self@,
    ;
}

/// A table of records.
#[verifier::reject_recursive_types(K)]
#[verifier::reject_recursive_types(V)]
#[allow(private_bounds)]
pub struct Store<K: TableKey, V: Record> {
    table: Table<K, V>,
}

impl<K: TableKey, V: Record> View for Store<K, V> {
    type V = Map<<K as View>::V, <V as View>::V>;

    closed spec fn view(&self) -> Map<<K as View>::V, <V as View>::V> {
        self.table@.map_values(|v: V| v@)
    }
}

/// The entries whose record passes the test.
pub open spec fn passing<K, V>(m: Map<K, V>, test: spec_fn(V) -> bool) -> Map<K, V> {
    Map::new(|k: K| m.contains_key(k) && test(m[k]), |k: K| m[k])
}

#[allow(private_bounds)]
impl<K: TableKey, V: Record> Store<K, V> {
    /// An empty store.
    pub fn new() -> (r: Self)
        ensures
            r@ == Map::<K::V, V::V>::empty(),
    {
        let r = Store { table: Table::new() };
        assert(r@ =~= Map::<K::V, V::V>::empty());
        r
    }

    /// Puts a record under a key, in place of any that stood there.
    pub fn insert(&mut self, key: K, value: V)
        ensures
            final(self)@ == old(self)@.insert(key@, value@),
    {
        self.table.insert(key, value);
        assert(self@ =~= old(self)@.insert(key@, value@));
    }

    /// Takes the record from under a key.
    pub fn remove(&mut self, key: &K) -> (r: Option<V>)
        ensures
            final(self)@ == old(self)@.remove(key@),
            r is Some <==> old(self)@.contains_key(key@),
            r matches Some(v) ==> v@ == old(self)@[key@],
    {
        let r = self.table.remove(key);
        assert(self@ =~= old(self)@.remove(key@));
        r
    }

    /// Is there a record under the key?
    pub fn contains_key(&self, key: &K) -> (r: bool)
        ensures
            r == self@.contains_key(key@),
    {
        self.table.contains_key(key)
    }

    /// A copy of the record under the key.
    pub fn get(&self, key: &K) -> (r: Option<V>)
        ensures
            r is Some <==> self@.contains_key(key@),
            r matches Some(v) ==> v@ == self@[key@],
    {
        self.table.peek(key, V::copy)
    }

    /// Takes the record from under a key, where it passes the test.
    pub(crate) fn remove_if(
        &mut self,
        key: &K,
        test: impl Fn(&V) -> bool,
        Ghost(meaning): Ghost<spec_fn(V::V) -> bool>,
    ) -> (r: Option<V>)
        requires
            forall|v: &V| #[trigger] call_requires(test, (v,)),
            forall|v: &V, b: bool| #[trigger] call_ensures(test, (v,), b) ==> b == meaning(v@),
        ensures
            r is Some <==> old(self)@.contains_key(key@) && meaning(old(self)@[key@]),
            r matches Some(v) ==> v@ == old(self)@[key@],
            final(self)@ == (if r is Some {
                old(self)@.remove(key@)
            } else {
                old(self)@
            }),
    {
        let r = self.table.remove_if(key, test);
        if r.is_some() {
            assert(self@ =~= old(self)@.remove(key@));
        }
        r
    }

    /// Keeps the entries whose record passes the test.
    pub(crate) fn retain(
        &mut self,
        keep: impl Fn(&V) -> bool,
        Ghost(meaning): Ghost<spec_fn(V::V) -> bool>,
    )
        requires
            forall|v: &V| #[trigger] call_requires(keep, (v,)),
            forall|v: &V, b: bool| #[trigger] call_ensures(keep, (v,), b) ==> b == meaning(v@),
        ensures
            final(self)@ == passing(old(self)@, meaning),
    {
        self.table.retain(keep);
        proof {
            assert forall|k: K::V|
                self@.contains_key(k) <==> passing(old(self)@, meaning).contains_key(k) by {
                assert(self@.contains_key(k) == self.table@.contains_key(k));
                assert(old(self)@.contains_key(k) == old(self).table@.contains_key(k));
            }
            assert(self@ =~= passing(old(self)@, meaning));
        }
    }

    /// The keys of all records, in no particular order.
    pub fn keys(&self) -> (r: Vec<K>)
        ensures
            forall|i: int, j: int| 0 <= i < j < r@.len() ==> r@[i]@ != r@[j]@,
            forall|i: int| 0 <= i < r@.len() ==> self@.contains_key((#[trigger] r@[i])@),
            forall|k: K::V| #[trigger]
                self@.contains_key(k) ==> exists|i: int| 0 <= i < r@.len() && #[trigger] r@[i]@ == k,
    {
        let r = self.table.keys();
        proof {
            assert forall|i: int| 0 <= i < r@.len() implies self@.contains_key(
                (#[trigger] r@[i])@,
            ) by {
                assert(self.table@.contains_key(r@[i]@));
            }
            assert forall|k: K::V| #[trigger] self@.contains_key(k) implies exists|i: int|
                0 <= i < r@.len() && #[trigger] r@[i]@ == k by {
                assert(self.table@.contains_key(k));
            }
        }
        r
    }
}

} // verus!
