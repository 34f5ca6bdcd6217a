use crate::lattice::{clones_exactly, Lattice, MaxLattice};
use std::collections::HashSet;
use std::hash::Hash;
use vstd::pervasive::cloned;
use vstd::prelude::*;
use vstd::seq_lib::seq_to_set_is_finite;
use vstd::set_lib::lemma_len_subset;
use vstd::std_specs::hash::{obeys_key_model, spec_hash_keys_iter};
use vstd::std_specs::iter::IteratorSpec;

verus! {

/// Elements of type `T` hash and compare consistently, and their clones are
/// exact copies.
pub open spec fn elements_ready<T: Clone>() -> bool {
    obeys_key_model::<T>() && clones_exactly::<T>()
}

/// A grow-only set: merging takes the union.
#[derive(Default, Debug)]
pub struct SetLattice<T>(pub HashSet<T>);

impl<T> View for SetLattice<T> {
    type V = Set<T>;

    open spec fn view(&self) -> Set<T> {
        self.0@
    }
}

impl<T: Eq + Hash + Clone> Lattice for SetLattice<T> {
    open spec fn merge_ready() -> bool {
        elements_ready::<T>()
    }

    open spec fn join(a: Set<T>, b: Set<T>) -> Set<T> {
        a.union(b)
    }

    fn do_merge(&mut self, other: &SetLattice<T>) {
        let ghost start = self@;
        for e in it: other.0.iter()
            invariant
                elements_ready::<T>(),
                it.seq().unref().to_set() == other@,
                forall|x: T| #[trigger] self@.contains(x) ==> start.contains(x) || other@.contains(x),
                forall|x: T| #[trigger] start.contains(x) ==> self@.contains(x),
                forall|x: T|
                    #[trigger] other@.contains(x) ==> self@.contains(x) || exists|i: int|
                        it.index() <= i < it.seq().len() && it.seq().unref()[i] == x,
        {
            let ghost k = it.index();
            let v = e.clone();
            assert(cloned(*e, v));
            assert(it.seq().unref()[k] == v);
            assert(it.seq().unref().contains(v));
            assert(it.seq().unref().to_set().contains(v));
            self.0.insert(v);
        }
        assert(self@ =~= start.union(other@));
    }
}

/// The contents of a `HashSet` form a finite set.
pub proof fn lemma_hash_set_finite<T>(s: &HashSet<T>)
    ensures
        s@.finite(),
{
    let items = spec_hash_keys_iter(s).remaining().unref();
    seq_to_set_is_finite(items);
}

impl<T: Eq + Hash + Clone> SetLattice<T> {
    /// An empty set.
    pub fn new() -> (r: SetLattice<T>)
        ensures
            r@ == Set::<T>::empty(),
    {
        SetLattice(HashSet::new())
    }

    /// The number of elements, as a `MaxLattice` so that sizes merge too.
    pub fn size(&self) -> (r: MaxLattice<usize>)
        requires
            obeys_key_model::<T>(),
        ensures
            r.0 == self@.len(),
    {
        MaxLattice(self.0.len())
    }

    /// Adds `l`; nothing changes when it is already there.
    pub fn insert(&mut self, l: T)
        requires
            obeys_key_model::<T>(),
        ensures
            final(self)@ == old(self)@.insert(l),
    {
        self.0.insert(l);
    }

    /// A new set holding the elements that are in both `self` and `l`.
    pub fn intersect(&self, l: &SetLattice<T>) -> (r: SetLattice<T>)
        requires
            elements_ready::<T>(),
        ensures
            r@ == self@.intersect(l@),
    {
        let mut new_set: HashSet<T> = HashSet::new();
        for e in it: self.0.iter()
            invariant
                elements_ready::<T>(),
                it.seq().unref().to_set() == self@,
                forall|x: T| #[trigger] new_set@.contains(x) ==> self@.contains(x) && l@.contains(x),
                forall|x: T|
                    #[trigger] self@.contains(x) && l@.contains(x) ==> new_set@.contains(x) || exists|i: int|
                        it.index() <= i < it.seq().len() && it.seq().unref()[i] == x,
        {
            let ghost k = it.index();
            assert(it.seq().unref()[k] == *e);
            assert(it.seq().unref().contains(*e));
            assert(it.seq().unref().to_set().contains(*e));
            if l.0.contains(e) {
                let v = e.clone();
                assert(cloned(*e, v));
                new_set.insert(v);
            }
        }
        let r = SetLattice(new_set);
        assert(r@ =~= self@.intersect(l@));
        r
    }
}

/// Relies on `PartialEq for HashSet`: two sets are equal when they hold the
/// same elements.
#[verifier::external_body]
fn hash_sets_equal<T: Eq + Hash>(a: &HashSet<T>, b: &HashSet<T>) -> (r: bool)
    ensures
        obeys_key_model::<T>() ==> r == (a@ == b@),
{
    a == b
}

impl<T: Eq + Hash> PartialEq for SetLattice<T> {
    fn eq(&self, other: &SetLattice<T>) -> (r: bool) {
        hash_sets_equal(&self.0, &other.0)
    }
}

impl<T: Eq + Hash> vstd::std_specs::cmp::PartialEqSpecImpl for SetLattice<T> {
    open spec fn obeys_eq_spec() -> bool {
        obeys_key_model::<T>()
    }

    open spec fn eq_spec(&self, other: &SetLattice<T>) -> bool {
        self@ == other@
    }
}

/// Merging sets is idempotent, commutative and associative; the union is at
/// least as large as either side; and a set intersected with itself is
/// itself.
pub proof fn lemma_set_lattice_laws<T: Eq + Hash + Clone>(
    a: SetLattice<T>,
    b: SetLattice<T>,
    c: SetLattice<T>,
)
    ensures
        SetLattice::<T>::join(a@, a@) == a@,
        SetLattice::<T>::join(a@, b@) == SetLattice::<T>::join(b@, a@),
        SetLattice::<T>::join(SetLattice::<T>::join(a@, b@), c@) == SetLattice::<T>::join(
            a@,
            SetLattice::<T>::join(b@, c@),
        ),
        SetLattice::<T>::join(a@, b@).len() >= a@.len(),
        SetLattice::<T>::join(a@, b@).len() >= b@.len(),
        a@.intersect(a@) == a@,
{
    lemma_hash_set_finite(&a.0);
    lemma_hash_set_finite(&b.0);
    assert(a@.union(a@) =~= a@);
    assert(a@.union(b@) =~= b@.union(a@));
    assert(a@.union(b@).union(c@) =~= a@.union(b@.union(c@)));
    assert(a@.intersect(a@) =~= a@);
    lemma_len_subset(a@, a@.union(b@));
    lemma_len_subset(b@, a@.union(b@));
}

} // verus!
