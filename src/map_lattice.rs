use crate::lattice::{clones_exactly, BoolLattice, Lattice, MaxLattice};
use crate::set_lattice::SetLattice;
use std::collections::HashMap;
use std::hash::Hash;
use vstd::laws_eq::obeys_concrete_eq;
use vstd::pervasive::cloned;
use vstd::prelude::*;
use vstd::set_lib::lemma_len_subset;
use vstd::std_specs::hash::obeys_key_model;

verus! {

/// Keys hash and compare consistently, and keys and values clone exactly.
pub open spec fn entries_ready<K: Clone, V: Clone>() -> bool {
    obeys_key_model::<K>() && clones_exactly::<K>() && clones_exactly::<V>()
}

/// A map whose merge takes the union of the keys.
///
/// Where both sides hold a key, the merge keeps the incoming value: it
/// overwrites rather than merging the two values.
#[derive(Default, Debug)]
pub struct MapLattice<K, V>(pub HashMap<K, V>);

impl<K, V> View for MapLattice<K, V> {
    type V = Map<K, V>;

    open spec fn view(&self) -> Map<K, V> {
        self.0@
    }
}

/// Some entry of `keys` at `from` or later is `x`.
spec fn pending<K>(keys: Seq<&K>, from: int, x: K) -> bool {
    exists|i: int| from <= i < keys.len() && *keys[i] == x
}

impl<K: Eq + Hash + Clone, V: Clone> Lattice for MapLattice<K, V> {
    open spec fn merge_ready() -> bool {
        entries_ready::<K, V>()
    }

    open spec fn join(a: Map<K, V>, b: Map<K, V>) -> Map<K, V> {
        a.union_prefer_right(b)
    }

    fn do_merge(&mut self, other: &MapLattice<K, V>) {
        let ghost start = self@;
        for k in it: other.0.keys()
            invariant
                entries_ready::<K, V>(),
                it.seq().unref().to_set() == other@.dom(),
                it.seq().no_duplicates(),
                forall|x: K|
                    #[trigger] self@.contains_key(x) <==> start.contains_key(x) || (
                    other@.contains_key(x) && !pending(it.seq(), it.index() as int, x)),
                forall|x: K|
                    #[trigger] self@.contains_key(x) ==> self@[x] == if other@.contains_key(x)
                        && !pending(it.seq(), it.index() as int, x) {
                        other@[x]
                    } else {
                        start[x]
                    },
        {
            let ghost idx = it.index();
            let ghost old_self = self@;
            assert(it.seq().unref()[idx] == *k);
            assert(it.seq().unref().contains(*k));
            assert(it.seq().unref().to_set().contains(*k));
            assert forall|i: int| idx < i < it.seq().len() implies *it.seq()[i] != *k by {
                assert(it.seq()[i] != it.seq()[idx]);
            }
            match other.0.get(k) {
                Some(v) => {
                    let key = k.clone();
                    assert(cloned(*k, key));
                    let value = v.clone();
                    assert(cloned(*v, value));
                    self.0.insert(key, value);
                },
                None => {},
            }
            assert forall|x: K| x != *k implies #[trigger] pending(it.seq(), idx + 1, x) == pending(
                it.seq(),
                idx as int,
                x,
            ) by {
                if pending(it.seq(), idx as int, x) {
                    let i = choose|i: int| idx <= i < it.seq().len() && *it.seq()[i] == x;
                    assert(i != idx);
                }
            }
            assert(!pending(it.seq(), idx + 1, *k));
            assert(other@.contains_key(*k));
            assert(self@.contains_key(*k) && self@[*k] == other@[*k]);
            assert(self@ == old_self.insert(*k, other@[*k]));
        }
        assert(self@ =~= start.union_prefer_right(other@));
    }
}

impl<K: Eq + Hash + Clone, V: Clone> MapLattice<K, V> {
    /// An empty map.
    pub fn new() -> (r: MapLattice<K, V>)
        ensures
            r@ == Map::<K, V>::empty(),
    {
        MapLattice(HashMap::new())
    }

    /// The number of keys, as a `MaxLattice` so that sizes merge too.
    pub fn size(&self) -> (r: MaxLattice<usize>)
        requires
            obeys_key_model::<K>(),
        ensures
            r.0 == self@.len(),
    {
        MaxLattice(self.0.len())
    }

    /// Maps `k` to a copy of `v`, replacing any earlier value of `k`.
    pub fn insert(&mut self, k: &K, v: &V)
        requires
            entries_ready::<K, V>(),
        ensures
            final(self)@ == old(self)@.insert(*k, *v),
    {
        let key = k.clone();
        assert(cloned(*k, key));
        let value = v.clone();
        assert(cloned(*v, value));
        self.0.insert(key, value);
    }

    /// A new map with the keys that both `self` and `l` hold, each with the
    /// value it has in `self`.
    pub fn intersect(&self, l: &MapLattice<K, V>) -> (r: MapLattice<K, V>)
        requires
            entries_ready::<K, V>(),
        ensures
            r@ == self@.restrict(l@.dom()),
    {
        let mut new_map_lattice: MapLattice<K, V> = MapLattice::new();
        for k in it: self.0.keys()
            invariant
                entries_ready::<K, V>(),
                it.seq().unref().to_set() == self@.dom(),
                forall|x: K|
                    #[trigger] new_map_lattice@.contains_key(x) ==> self@.contains_key(x)
                        && l@.contains_key(x) && new_map_lattice@[x] == self@[x],
                forall|x: K|
                    #[trigger] self@.contains_key(x) && l@.contains_key(x)
                        ==> new_map_lattice@.contains_key(x) || pending(
                        it.seq(),
                        it.index() as int,
                        x,
                    ),
        {
            let ghost idx = it.index();
            assert(it.seq().unref()[idx] == *k);
            assert(it.seq().unref().contains(*k));
            assert(it.seq().unref().to_set().contains(*k));
            assert forall|x: K| x != *k && #[trigger] pending(it.seq(), idx as int, x) implies pending(
                it.seq(),
                idx + 1,
                x,
            ) by {
                let i = choose|i: int| idx <= i < it.seq().len() && *it.seq()[i] == x;
                assert(i != idx);
            }
            if l.0.contains_key(k) {
                match self.0.get(k) {
                    Some(v) => {
                        new_map_lattice.insert(k, v);
                    },
                    None => {},
                }
            }
        }
        assert(new_map_lattice@ =~= self@.restrict(l@.dom()));
        new_map_lattice
    }

    /// The set of keys.
    pub fn key_set(&self) -> (r: SetLattice<K>)
        requires
            entries_ready::<K, V>(),
        ensures
            r@ == self@.dom(),
    {
        let mut set_lattice: SetLattice<K> = SetLattice::new();
        for k in it: self.0.keys()
            invariant
                entries_ready::<K, V>(),
                it.seq().unref().to_set() == self@.dom(),
                forall|x: K| #[trigger] set_lattice@.contains(x) ==> self@.contains_key(x),
                forall|x: K|
                    #[trigger] self@.contains_key(x) ==> set_lattice@.contains(x) || pending(
                        it.seq(),
                        it.index() as int,
                        x,
                    ),
        {
            let ghost idx = it.index();
            assert(it.seq().unref()[idx] == *k);
            assert(it.seq().unref().contains(*k));
            assert(it.seq().unref().to_set().contains(*k));
            assert forall|x: K| x != *k && #[trigger] pending(it.seq(), idx as int, x) implies pending(
                it.seq(),
                idx + 1,
                x,
            ) by {
                let i = choose|i: int| idx <= i < it.seq().len() && *it.seq()[i] == x;
                assert(i != idx);
            }
            let key = k.clone();
            assert(cloned(*k, key));
            set_lattice.insert(key);
        }
        assert(set_lattice@ =~= self@.dom());
        set_lattice
    }

    /// Whether `key` has an entry, as a `BoolLattice`.
    pub fn contains(&self, key: &K) -> (r: BoolLattice)
        requires
            obeys_key_model::<K>(),
        ensures
            r@ == self@.contains_key(*key),
    {
        BoolLattice(self.0.contains_key(key))
    }

    /// The value of `key`, or `None` where it has no entry.
    pub fn get(&self, key: &K) -> (r: Option<&V>)
        requires
            obeys_key_model::<K>(),
        ensures
            match r {
                Some(v) => self@.contains_key(*key) && *v == self@[*key],
                None => !self@.contains_key(*key),
            },
    {
        self.0.get(key)
    }

    /// Takes the entry of `key` out and returns its value, or `None` where
    /// there was none. This is no merge: it can lose information.
    pub fn remove(&mut self, key: &K) -> (r: Option<V>)
        requires
            obeys_key_model::<K>(),
        ensures
            final(self)@ == old(self)@.remove(*key),
            match r {
                Some(v) => old(self)@.contains_key(*key) && v == old(self)@[*key],
                None => !old(self)@.contains_key(*key),
            },
    {
        self.0.remove(key)
    }
}

impl<K, V> From<HashMap<K, V>> for MapLattice<K, V> {
    fn from(map: HashMap<K, V>) -> (r: MapLattice<K, V>)
        ensures
            r@ == map@,
    {
        MapLattice(map)
    }
}

impl<K, V> vstd::std_specs::convert::FromSpecImpl<HashMap<K, V>> for MapLattice<K, V> {
    open spec fn obeys_from_spec() -> bool {
        true
    }

    open spec fn from_spec(map: HashMap<K, V>) -> MapLattice<K, V> {
        MapLattice(map)
    }
}

/// Relies on `PartialEq for HashMap`: two maps are equal when they hold the
/// same keys, each with equal values.
#[verifier::external_body]
fn hash_maps_equal<K: Eq + Hash, V: PartialEq>(a: &HashMap<K, V>, b: &HashMap<K, V>) -> (r: bool)
    ensures
        obeys_key_model::<K>() && obeys_concrete_eq::<V>() ==> r == (a@ == b@),
{
    a == b
}

impl<K: Eq + Hash, V: PartialEq> PartialEq for MapLattice<K, V> {
    fn eq(&self, other: &MapLattice<K, V>) -> (r: bool) {
        hash_maps_equal(&self.0, &other.0)
    }
}

impl<K: Eq + Hash, V: PartialEq> vstd::std_specs::cmp::PartialEqSpecImpl for MapLattice<K, V> {
    open spec fn obeys_eq_spec() -> bool {
        obeys_key_model::<K>() && obeys_concrete_eq::<V>()
    }

    open spec fn eq_spec(&self, other: &MapLattice<K, V>) -> bool {
        self@ == other@
    }
}

/// Merging maps is idempotent and associative, and the result holds at least
/// as many keys as either side. It is commutative where the two maps agree
/// on every key they share; where they disagree, the incoming value wins and
/// the order of merging shows.
pub proof fn lemma_map_lattice_laws<K: Eq + Hash + Clone, V: Clone>(
    a: MapLattice<K, V>,
    b: MapLattice<K, V>,
    c: MapLattice<K, V>,
)
    ensures
        MapLattice::<K, V>::join(a@, a@) == a@,
        MapLattice::<K, V>::join(MapLattice::<K, V>::join(a@, b@), c@) == MapLattice::<
            K,
            V,
        >::join(a@, MapLattice::<K, V>::join(b@, c@)),
        MapLattice::<K, V>::join(a@, b@).len() >= a@.len(),
        MapLattice::<K, V>::join(a@, b@).len() >= b@.len(),
        (forall|k: K| a@.contains_key(k) && b@.contains_key(k) ==> a@[k] == b@[k])
            ==> MapLattice::<K, V>::join(a@, b@) == MapLattice::<K, V>::join(b@, a@),
{
    assert(a@.union_prefer_right(a@) =~= a@);
    assert(a@.union_prefer_right(b@).union_prefer_right(c@) =~= a@.union_prefer_right(
        b@.union_prefer_right(c@),
    ));
    let ab = a@.union_prefer_right(b@);
    assert(ab.dom() =~= a@.dom().union(b@.dom()));
    lemma_len_subset(a@.dom(), ab.dom());
    lemma_len_subset(b@.dom(), ab.dom());
    if forall|k: K| a@.contains_key(k) && b@.contains_key(k) ==> a@[k] == b@[k] {
        assert(ab =~= b@.union_prefer_right(a@));
    }
}

} // verus!
