use crate::lattice::{Lattice, MaxLattice};
use linked_hash_set::LinkedHashSet;
use vstd::prelude::*;
use vstd::seq_lib::{lemma_seq_concat_contains_all_elements, seq_to_set_is_finite};
use vstd::set_lib::lemma_len_subset;

verus! {

#[verifier::external_type_specification]
#[verifier::external_body]
#[verifier::reject_recursive_types(T)]
#[verifier::reject_recursive_types(S)]
pub struct ExLinkedHashSet<T, S>(LinkedHashSet<T, S>);

/// The elements of a `LinkedHashSet`, in the order in which they were first
/// inserted.
pub uninterp spec fn ordered_items(s: LinkedHashSet<usize>) -> Seq<usize>;

/// Relies on `LinkedHashSet::new`: the set starts empty.
#[verifier::external_body]
fn ordered_new() -> (r: LinkedHashSet<usize>)
    ensures
        ordered_items(r) == Seq::<usize>::empty(),
{
    LinkedHashSet::new()
}

/// Relies on `LinkedHashSet::len`: the number of elements.
#[verifier::external_body]
fn ordered_len(s: &LinkedHashSet<usize>) -> (r: usize)
    ensures
        r == ordered_items(*s).len(),
{
    s.len()
}

/// Relies on `LinkedHashSet::contains`: whether `v` is an element.
#[verifier::external_body]
fn ordered_contains(s: &LinkedHashSet<usize>, v: usize) -> (r: bool)
    ensures
        r == ordered_items(*s).contains(v),
{
    s.contains(&v)
}

/// Relies on `LinkedHashSet::insert_if_absent`: a new element goes to the
/// back; an element already present keeps its place.
#[verifier::external_body]
fn ordered_insert_if_absent(s: &mut LinkedHashSet<usize>, v: usize) -> (r: bool)
    ensures
        r == !ordered_items(*old(s)).contains(v),
        ordered_items(*final(s)) == if ordered_items(*old(s)).contains(v) {
            ordered_items(*old(s))
        } else {
            ordered_items(*old(s)).push(v)
        },
{
    s.insert_if_absent(v)
}

/// Relies on `LinkedHashSet::iter`: the elements in insertion order, each
/// once.
#[verifier::external_body]
fn ordered_to_vec(s: &LinkedHashSet<usize>) -> (r: Vec<usize>)
    ensures
        r@ == ordered_items(*s),
        r@.no_duplicates(),
{
    s.iter().copied().collect()
}

/// The elements of `s` that are in `keep`, in the order of `s`.
pub open spec fn restrict(s: Seq<usize>, keep: Set<usize>) -> Seq<usize>
    decreases s.len(),
{
    if s.len() == 0 {
        s
    } else if keep.contains(s.last()) {
        restrict(s.drop_last(), keep).push(s.last())
    } else {
        restrict(s.drop_last(), keep)
    }
}

/// `a` followed by the elements of `b` that `a` does not hold, in the order
/// of `b`.
pub open spec fn append_new(a: Seq<usize>, b: Seq<usize>) -> Seq<usize> {
    a + restrict(b, a.to_set().complement())
}

/// Restricting `s` after appending `x` appends `x` exactly when it is kept.
pub proof fn lemma_restrict_push(s: Seq<usize>, x: usize, keep: Set<usize>)
    ensures
        restrict(s.push(x), keep) == if keep.contains(x) {
            restrict(s, keep).push(x)
        } else {
            restrict(s, keep)
        },
{
    assert(s.push(x).drop_last() =~= s);
}

/// An element survives restriction exactly when it is in `s` and kept.
pub proof fn lemma_restrict_contains(s: Seq<usize>, keep: Set<usize>, x: usize)
    ensures
        restrict(s, keep).contains(x) <==> s.contains(x) && keep.contains(x),
    decreases s.len(),
{
    if s.len() > 0 {
        lemma_restrict_contains(s.drop_last(), keep, x);
        assert(s =~= s.drop_last().push(s.last()));
        if s.contains(x) && x != s.last() {
            let i = choose|i: int| 0 <= i < s.len() && s[i] == x;
            assert(s.drop_last()[i] == x);
        }
        if s.drop_last().contains(x) {
            let i = choose|i: int| 0 <= i < s.drop_last().len() && s.drop_last()[i] == x;
            assert(s[i] == x);
        }
        if restrict(s.drop_last(), keep).contains(x) {
            let r = restrict(s.drop_last(), keep);
            let i = choose|i: int| 0 <= i < r.len() && r[i] == x;
            if keep.contains(s.last()) {
                assert(r.push(s.last())[i] == x);
            }
        }
        if keep.contains(s.last()) {
            assert(restrict(s, keep).last() == s.last());
        }
    }
}

/// Restricting to a set that holds every element of `s` gives `s` back.
pub proof fn lemma_restrict_all_kept(s: Seq<usize>, keep: Set<usize>)
    requires
        forall|i: int| 0 <= i < s.len() ==> keep.contains(#[trigger] s[i]),
    ensures
        restrict(s, keep) == s,
    decreases s.len(),
{
    if s.len() > 0 {
        lemma_restrict_all_kept(s.drop_last(), keep);
        assert(s.drop_last().push(s.last()) =~= s);
    }
}

/// Restricting to a set that holds no element of `s` gives nothing.
pub proof fn lemma_restrict_none_kept(s: Seq<usize>, keep: Set<usize>)
    requires
        forall|i: int| 0 <= i < s.len() ==> !keep.contains(#[trigger] s[i]),
    ensures
        restrict(s, keep) == Seq::<usize>::empty(),
    decreases s.len(),
{
    if s.len() > 0 {
        lemma_restrict_none_kept(s.drop_last(), keep);
    }
}

/// Restriction distributes over concatenation.
pub proof fn lemma_restrict_concat(s: Seq<usize>, t: Seq<usize>, keep: Set<usize>)
    ensures
        restrict(s + t, keep) == restrict(s, keep) + restrict(t, keep),
    decreases t.len(),
{
    if t.len() == 0 {
        assert(s + t =~= s);
        assert(restrict(s, keep) + restrict(t, keep) =~= restrict(s, keep));
    } else {
        let u = t.drop_last();
        lemma_restrict_concat(s, u, keep);
        assert(s + t =~= (s + u).push(t.last()));
        assert(t =~= u.push(t.last()));
        lemma_restrict_push(s + u, t.last(), keep);
        lemma_restrict_push(u, t.last(), keep);
        if keep.contains(t.last()) {
            assert((restrict(s, keep) + restrict(u, keep)).push(t.last()) =~= restrict(s, keep)
                + restrict(u, keep).push(t.last()));
        }
    }
}

/// Restricting twice is restricting to the intersection.
pub proof fn lemma_restrict_twice(s: Seq<usize>, k1: Set<usize>, k2: Set<usize>)
    ensures
        restrict(restrict(s, k1), k2) == restrict(s, k1.intersect(k2)),
    decreases s.len(),
{
    if s.len() > 0 {
        lemma_restrict_twice(s.drop_last(), k1, k2);
        if k1.contains(s.last()) {
            lemma_restrict_push(restrict(s.drop_last(), k1), s.last(), k2);
        }
    }
}

/// Every element lands on exactly one side of a restriction.
pub proof fn lemma_restrict_split_len(s: Seq<usize>, keep: Set<usize>)
    ensures
        restrict(s, keep).len() + restrict(s, keep.complement()).len() == s.len(),
    decreases s.len(),
{
    if s.len() > 0 {
        lemma_restrict_split_len(s.drop_last(), keep);
    }
}

/// Restriction keeps a sequence free of duplicates.
pub proof fn lemma_restrict_no_duplicates(s: Seq<usize>, keep: Set<usize>)
    requires
        s.no_duplicates(),
    ensures
        restrict(s, keep).no_duplicates(),
    decreases s.len(),
{
    if s.len() > 0 {
        let d = s.drop_last();
        assert(d.no_duplicates());
        lemma_restrict_no_duplicates(d, keep);
        if keep.contains(s.last()) {
            lemma_restrict_contains(d, keep, s.last());
            assert(!d.contains(s.last())) by {
                if d.contains(s.last()) {
                    let j = choose|j: int| 0 <= j < d.len() && d[j] == s.last();
                    assert(s[j] == s[s.len() - 1]);
                }
            }
            let r = restrict(d, keep);
            assert forall|i: int, j: int|
                0 <= i < r.push(s.last()).len() && 0 <= j < r.push(s.last()).len() && i != j
                implies r.push(s.last())[i] != r.push(s.last())[j] by {
                if i == r.len() {
                    assert(r.contains(r[j]));
                } else if j == r.len() {
                    assert(r.contains(r[i]));
                }
            }
        }
    }
}

/// A grow-only set that keeps the order in which elements first arrived.
///
/// Two such sets are equal only when they hold the same elements in the
/// same order. A merge keeps every element where it stands and appends the
/// incoming elements that are new, in their incoming order.
#[derive(Debug)]
pub struct OrderedSetLattice(pub LinkedHashSet<usize>);

impl View for OrderedSetLattice {
    type V = Seq<usize>;

    open spec fn view(&self) -> Seq<usize> {
        ordered_items(self.0)
    }
}

impl Lattice for OrderedSetLattice {
    open spec fn merge_ready() -> bool {
        true
    }

    open spec fn join(a: Seq<usize>, b: Seq<usize>) -> Seq<usize> {
        append_new(a, b)
    }

    fn do_merge(&mut self, other: &OrderedSetLattice) {
        let ghost start = self@;
        let items = ordered_to_vec(&other.0);
        let n = items.len();
        let mut i: usize = 0;
        while i < n
            invariant
                n == items@.len(),
                i <= n,
                items@ == other@,
                items@.no_duplicates(),
                self@ == start + restrict(items@.take(i as int), start.to_set().complement()),
            decreases n - i,
        {
            let x = items[i];
            let ghost done = items@.take(i as int);
            let ghost keep = start.to_set().complement();
            proof {
                assert(items@.take(i + 1) =~= done.push(x));
                lemma_restrict_push(done, x, keep);
                lemma_restrict_contains(done, keep, x);
                assert(!done.contains(x)) by {
                    if done.contains(x) {
                        let j = choose|j: int| 0 <= j < done.len() && done[j] == x;
                        assert(items@[j] == items@[i as int]);
                    }
                }
                if start.contains(x) {
                    assert(start.to_set().contains(x));
                }
                if !start.contains(x) {
                    assert(!start.to_set().contains(x));
                }
                let rest = restrict(done, keep);
                if self@.contains(x) {
                    let j = choose|j: int| 0 <= j < self@.len() && self@[j] == x;
                    if j >= start.len() {
                        assert(rest[j - start.len()] == x);
                    }
                }
                if start.contains(x) {
                    let j = choose|j: int| 0 <= j < start.len() && start[j] == x;
                    assert(self@[j] == x);
                }
                assert(self@.contains(x) <==> start.contains(x));
            }
            ordered_insert_if_absent(&mut self.0, x);
            proof {
                if !start.contains(x) {
                    assert(self@ =~= start + restrict(items@.take(i + 1), keep));
                }
            }
            i = i + 1;
        }
        assert(items@.take(n as int) =~= items@);
    }
}

impl OrderedSetLattice {
    /// An empty set.
    pub fn new() -> (r: OrderedSetLattice)
        ensures
            r@ == Seq::<usize>::empty(),
    {
        OrderedSetLattice(ordered_new())
    }

    /// The number of elements, as a `MaxLattice` so that sizes merge too.
    pub fn size(&self) -> (r: MaxLattice<usize>)
        ensures
            r.0 == self@.len(),
    {
        MaxLattice(ordered_len(&self.0))
    }

    /// Appends `l`; nothing changes, not even the order, when it is already
    /// there.
    pub fn insert(&mut self, l: usize)
        ensures
            final(self)@ == if old(self)@.contains(l) {
                old(self)@
            } else {
                old(self)@.push(l)
            },
    {
        ordered_insert_if_absent(&mut self.0, l);
    }

    /// A new set holding the elements of `self` that `l` also holds, in the
    /// order of `self`.
    pub fn intersect(&self, l: &OrderedSetLattice) -> (r: OrderedSetLattice)
        ensures
            r@ == restrict(self@, l@.to_set()),
    {
        let items = ordered_to_vec(&self.0);
        let mut new_set = ordered_new();
        let n = items.len();
        let mut i: usize = 0;
        while i < n
            invariant
                n == items@.len(),
                i <= n,
                items@ == self@,
                items@.no_duplicates(),
                ordered_items(new_set) == restrict(items@.take(i as int), l@.to_set()),
            decreases n - i,
        {
            let x = items[i];
            let ghost done = items@.take(i as int);
            proof {
                assert(items@.take(i + 1) =~= done.push(x));
                lemma_restrict_push(done, x, l@.to_set());
                lemma_restrict_contains(done, l@.to_set(), x);
                assert(!done.contains(x)) by {
                    if done.contains(x) {
                        let j = choose|j: int| 0 <= j < done.len() && done[j] == x;
                        assert(items@[j] == items@[i as int]);
                    }
                }
            }
            if ordered_contains(&l.0, x) {
                assert(l@.to_set().contains(x));
                ordered_insert_if_absent(&mut new_set, x);
            } else {
                assert(!l@.to_set().contains(x));
            }
            i = i + 1;
        }
        assert(items@.take(n as int) =~= items@);
        OrderedSetLattice(new_set)
    }
}

impl PartialEq for OrderedSetLattice {
    fn eq(&self, other: &OrderedSetLattice) -> (r: bool) {
        let a = ordered_to_vec(&self.0);
        let b = ordered_to_vec(&other.0);
        if a.len() != b.len() {
            return false;
        }
        let mut i: usize = 0;
        while i < a.len()
            invariant
                a@ == self@,
                b@ == other@,
                a@.len() == b@.len(),
                i <= a@.len(),
                a@.take(i as int) == b@.take(i as int),
            decreases a@.len() - i,
        {
            if a[i] != b[i] {
                assert(a@[i as int] != b@[i as int]);
                return false;
            }
            assert(a@.take(i + 1) =~= a@.take(i as int).push(a@[i as int]));
            assert(b@.take(i + 1) =~= b@.take(i as int).push(b@[i as int]));
            i = i + 1;
        }
        assert(a@ =~= a@.take(i as int));
        assert(b@ =~= b@.take(i as int));
        true
    }
}

impl vstd::std_specs::cmp::PartialEqSpecImpl for OrderedSetLattice {
    open spec fn obeys_eq_spec() -> bool {
        true
    }

    open spec fn eq_spec(&self, other: &OrderedSetLattice) -> bool {
        self@ == other@
    }
}

impl From<LinkedHashSet<usize>> for OrderedSetLattice {
    fn from(set: LinkedHashSet<usize>) -> (r: OrderedSetLattice)
        ensures
            r@ == ordered_items(set),
    {
        OrderedSetLattice(set)
    }
}

impl vstd::std_specs::convert::FromSpecImpl<LinkedHashSet<usize>> for OrderedSetLattice {
    open spec fn obeys_from_spec() -> bool {
        true
    }

    open spec fn from_spec(set: LinkedHashSet<usize>) -> OrderedSetLattice {
        OrderedSetLattice(set)
    }
}

/// Merging ordered sets is idempotent and associative; the result holds
/// exactly the elements of both sides, whichever side is merged into which,
/// and is at least as long as either. The order of merging does show in
/// the element order: `{1}` merged with `{2}` is `[1, 2]`, the other way
/// round `[2, 1]`. A set intersected with itself is itself.
pub proof fn lemma_ordered_set_lattice_laws(
    a: OrderedSetLattice,
    b: OrderedSetLattice,
    c: OrderedSetLattice,
)
    requires
        a@.no_duplicates(),
        b@.no_duplicates(),
    ensures
        OrderedSetLattice::join(a@, a@) == a@,
        OrderedSetLattice::join(OrderedSetLattice::join(a@, b@), c@) == OrderedSetLattice::join(
            a@,
            OrderedSetLattice::join(b@, c@),
        ),
        OrderedSetLattice::join(a@, b@).to_set() == a@.to_set().union(b@.to_set()),
        OrderedSetLattice::join(a@, b@).to_set() == OrderedSetLattice::join(b@, a@).to_set(),
        OrderedSetLattice::join(a@, b@).len() >= a@.len(),
        OrderedSetLattice::join(a@, b@).len() >= b@.len(),
        restrict(a@, a@.to_set()) == a@,
{
    let (x, y, z) = (a@, b@, c@);
    let (sx, sy) = (x.to_set(), y.to_set());
    // idempotence
    assert forall|i: int| 0 <= i < x.len() implies !sx.complement().contains(#[trigger] x[i]) by {
        assert(sx.contains(x[i]));
    }
    lemma_restrict_none_kept(x, sx.complement());
    assert(x + Seq::<usize>::empty() =~= x);
    // the elements of a merge
    assert forall|p: Seq<usize>, q: Seq<usize>|
        #[trigger] append_new(p, q).to_set() == p.to_set().union(q.to_set()) by {
        let r = append_new(p, q);
        assert forall|e: usize| r.to_set().contains(e) <==> p.to_set().union(q.to_set()).contains(
            e,
        ) by {
            lemma_restrict_contains(q, p.to_set().complement(), e);
            lemma_seq_concat_contains_all_elements(p, restrict(q, p.to_set().complement()), e);
            assert(r.contains(e) <==> p.contains(e) || restrict(q, p.to_set().complement()).contains(
                e,
            ));
        }
        assert(r.to_set() =~= p.to_set().union(q.to_set()));
    }
    assert(append_new(x, y).to_set() == sx.union(sy));
    assert(append_new(y, x).to_set() == sy.union(sx));
    assert(sx.union(sy) =~= sy.union(sx));
    // associativity
    let ry = restrict(y, sx.complement());
    assert(append_new(x, y).to_set().complement() =~= sy.complement().intersect(sx.complement()));
    lemma_restrict_concat(y, restrict(z, sy.complement()), sx.complement());
    lemma_restrict_twice(z, sy.complement(), sx.complement());
    assert(append_new(x, append_new(y, z)) =~= (x + ry) + restrict(
        z,
        sy.complement().intersect(sx.complement()),
    ));
    // lengths
    lemma_restrict_split_len(y, sx);
    lemma_restrict_no_duplicates(y, sx);
    let ky = restrict(y, sx);
    ky.unique_seq_to_set();
    x.unique_seq_to_set();
    assert forall|e: usize| ky.to_set().contains(e) implies sx.contains(e) by {
        lemma_restrict_contains(y, sx, e);
    }
    seq_to_set_is_finite(x);
    lemma_len_subset(ky.to_set(), sx);
    // a set intersected with itself
    assert forall|i: int| 0 <= i < x.len() implies sx.contains(#[trigger] x[i]) by {
        assert(x.contains(x[i]));
    }
    lemma_restrict_all_kept(x, sx);
}

} // verus!
