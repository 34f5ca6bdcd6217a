use core::cmp::Ordering;
use vstd::pervasive::cloned;
use vstd::prelude::*;
use vstd::std_specs::cmp::PartialOrdSpec;
use vstd::std_specs::ops::{AddSpec, SubSpec};

verus! {

/// A value that merges another value of its own type into itself, in place.
///
/// `join(a, b)` is the state that merging `b` into `a` leaves behind, over
/// the type's view.
pub trait Lattice: Sized + View {
    /// Holds when the element types behave as a merge needs: clones are
    /// exact copies, and hashing and ordering are consistent.
    spec fn merge_ready() -> bool;

    /// The view that merging `b` into `a` produces.
    spec fn join(a: Self::V, b: Self::V) -> Self::V;

    /// Merges `other` into `self`.
    fn do_merge(&mut self, other: &Self)
        requires
            Self::merge_ready(),
        ensures
            final(self)@ == Self::join(old(self)@, other@),
    ;
}

/// A clone of a `T` is always equal to its source.
pub open spec fn clones_exactly<T: Clone>() -> bool {
    forall|a: T, b: T| #[trigger] cloned(a, b) ==> a == b
}

/// `partial_cmp` on `T` is a total order that agrees with equality.
pub open spec fn total_order<T: PartialOrd>() -> bool {
    &&& T::obeys_partial_cmp_spec()
    &&& forall|x: T, y: T|
        #![trigger x.partial_cmp_spec(&y)]
        {
            &&& x.partial_cmp_spec(&y) is Some
            &&& x.partial_cmp_spec(&y) == Some(Ordering::Equal) <==> x == y
            &&& x.partial_cmp_spec(&y) == Some(Ordering::Less) <==> y.partial_cmp_spec(&x) == Some(
                Ordering::Greater,
            )
            &&& x.partial_cmp_spec(&y) == Some(Ordering::Greater) <==> y.partial_cmp_spec(&x)
                == Some(Ordering::Less)
        }
    &&& forall|x: T, y: T, z: T|
        #[trigger] x.partial_cmp_spec(&y) == Some(Ordering::Less) && #[trigger] y.partial_cmp_spec(
            &z,
        ) == Some(Ordering::Less) ==> x.partial_cmp_spec(&z) == Some(Ordering::Less)
}

/// A flag that, once `true`, stays `true` under every merge.
#[derive(Default, Debug, PartialEq, Eq, Structural)]
pub struct BoolLattice(pub bool);

impl View for BoolLattice {
    type V = bool;

    open spec fn view(&self) -> bool {
        self.0
    }
}

impl Lattice for BoolLattice {
    open spec fn merge_ready() -> bool {
        true
    }

    open spec fn join(a: bool, b: bool) -> bool {
        a || b
    }

    fn do_merge(&mut self, other: &BoolLattice) {
        self.0 = self.0 || other.0;
    }
}

impl From<bool> for BoolLattice {
    fn from(v: bool) -> (r: BoolLattice)
        ensures
            r.0 == v,
    {
        BoolLattice(v)
    }
}

impl vstd::std_specs::convert::FromSpecImpl<bool> for BoolLattice {
    open spec fn obeys_from_spec() -> bool {
        true
    }

    open spec fn from_spec(v: bool) -> BoolLattice {
        BoolLattice(v)
    }
}

/// A value that only grows: a merge keeps the larger of the two.
///
/// Besides merging it supports `+` and `-`, for use as a counter; those are
/// ordinary arithmetic and take no part in the merge.
#[derive(Default, Clone, PartialEq, Debug)]
pub struct MaxLattice<T>(pub T);

impl<T> View for MaxLattice<T> {
    type V = T;

    open spec fn view(&self) -> T {
        self.0
    }
}

/// The larger of `a` and `b`; `a` where neither is smaller.
pub open spec fn max_of<T: PartialOrd>(a: T, b: T) -> T {
    if a.partial_cmp_spec(&b) == Some(Ordering::Less) {
        b
    } else {
        a
    }
}

impl<T: PartialOrd + Clone> Lattice for MaxLattice<T> {
    open spec fn merge_ready() -> bool {
        T::obeys_partial_cmp_spec() && clones_exactly::<T>()
    }

    open spec fn join(a: T, b: T) -> T {
        max_of(a, b)
    }

    fn do_merge(&mut self, other: &MaxLattice<T>) {
        if self.0 < other.0 {
            let v = other.0.clone();
            assert(cloned(other.0, v));
            self.0 = v;
        }
    }
}

impl<T: PartialOrd + Clone> From<T> for MaxLattice<T> {
    fn from(v: T) -> (r: MaxLattice<T>)
        ensures
            r.0 == v,
    {
        MaxLattice(v)
    }
}

impl<T: PartialOrd + Clone> vstd::std_specs::convert::FromSpecImpl<T> for MaxLattice<T> {
    open spec fn obeys_from_spec() -> bool {
        true
    }

    open spec fn from_spec(v: T) -> MaxLattice<T> {
        MaxLattice(v)
    }
}

impl<T: core::ops::Add<Output = T>> core::ops::Add for MaxLattice<T> {
    type Output = MaxLattice<T>;

    fn add(self, other: MaxLattice<T>) -> (r: MaxLattice<T>) {
        MaxLattice(self.0 + other.0)
    }
}

impl<T: core::ops::Add<Output = T>> vstd::std_specs::ops::AddSpecImpl for MaxLattice<T> {
    open spec fn obeys_add_spec() -> bool {
        T::obeys_add_spec()
    }

    open spec fn add_req(self, other: MaxLattice<T>) -> bool {
        self.0.add_req(other.0)
    }

    open spec fn add_spec(self, other: MaxLattice<T>) -> MaxLattice<T> {
        MaxLattice(self.0.add_spec(other.0))
    }
}

impl<T: core::ops::Sub<Output = T>> core::ops::Sub for MaxLattice<T> {
    type Output = MaxLattice<T>;

    fn sub(self, other: MaxLattice<T>) -> (r: MaxLattice<T>) {
        MaxLattice(self.0 - other.0)
    }
}

impl<T: core::ops::Sub<Output = T>> vstd::std_specs::ops::SubSpecImpl for MaxLattice<T> {
    open spec fn obeys_sub_spec() -> bool {
        T::obeys_sub_spec()
    }

    open spec fn sub_req(self, other: MaxLattice<T>) -> bool {
        self.0.sub_req(other.0)
    }

    open spec fn sub_spec(self, other: MaxLattice<T>) -> MaxLattice<T> {
        MaxLattice(self.0.sub_spec(other.0))
    }
}

/// Merging a flag is idempotent, commutative and associative, and never
/// turns a `true` back into `false`.
pub proof fn lemma_bool_lattice_laws(a: BoolLattice, b: BoolLattice, c: BoolLattice)
    ensures
        BoolLattice::join(a@, a@) == a@,
        BoolLattice::join(a@, b@) == BoolLattice::join(b@, a@),
        BoolLattice::join(BoolLattice::join(a@, b@), c@) == BoolLattice::join(
            a@,
            BoolLattice::join(b@, c@),
        ),
        a@ ==> BoolLattice::join(a@, b@),
        b@ ==> BoolLattice::join(a@, b@),
{
}

/// Over a total order, merging maxima is idempotent, commutative and
/// associative, and the result is at least as large as either side.
pub proof fn lemma_max_lattice_laws<T: PartialOrd + Clone>(
    a: MaxLattice<T>,
    b: MaxLattice<T>,
    c: MaxLattice<T>,
)
    requires
        total_order::<T>(),
    ensures
        MaxLattice::<T>::join(a@, a@) == a@,
        MaxLattice::<T>::join(a@, b@) == MaxLattice::<T>::join(b@, a@),
        MaxLattice::<T>::join(MaxLattice::<T>::join(a@, b@), c@) == MaxLattice::<T>::join(
            a@,
            MaxLattice::<T>::join(b@, c@),
        ),
        MaxLattice::<T>::join(a@, b@).partial_cmp_spec(&a@) != Some(Ordering::Less),
        MaxLattice::<T>::join(a@, b@).partial_cmp_spec(&b@) != Some(Ordering::Less),
{
    let (x, y, z) = (a.0, b.0, c.0);
    assert(x.partial_cmp_spec(&y) is Some && y.partial_cmp_spec(&x) is Some);
    assert(y.partial_cmp_spec(&z) is Some && z.partial_cmp_spec(&y) is Some);
    assert(x.partial_cmp_spec(&z) is Some && z.partial_cmp_spec(&x) is Some);
    assert(x.partial_cmp_spec(&x) is Some && y.partial_cmp_spec(&y) is Some);
    if x.partial_cmp_spec(&y) == Some(Ordering::Less) {
        assert(max_of(x, y) == y);
        assert(y.partial_cmp_spec(&x) == Some(Ordering::Greater));
        assert(max_of(y, x) == y);
    } else if x.partial_cmp_spec(&y) == Some(Ordering::Equal) {
        assert(x == y);
    } else {
        assert(x.partial_cmp_spec(&y) == Some(Ordering::Greater));
        assert(max_of(x, y) == x);
    }
}

} // verus!
