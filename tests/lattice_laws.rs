use annalib::lattice::{BoolLattice, Lattice, MaxLattice};
use annalib::lww_pair_lattice::{LWWPairLattice, TimestampValuePair};
use annalib::map_lattice::MapLattice;
use annalib::ordered_set_lattice::OrderedSetLattice;
use annalib::set_lattice::SetLattice;

fn set_of(items: &[usize]) -> SetLattice<usize> {
    let mut s = SetLattice::new();
    for i in items {
        s.insert(*i);
    }
    s
}

fn ordered_of(items: &[usize]) -> OrderedSetLattice {
    let mut s = OrderedSetLattice::new();
    for i in items {
        s.insert(*i);
    }
    s
}

fn items_of(s: &OrderedSetLattice) -> Vec<usize> {
    s.0.iter().copied().collect()
}

fn map_of(entries: &[(usize, usize)]) -> MapLattice<usize, usize> {
    let mut m = MapLattice::new();
    for (k, v) in entries {
        m.insert(k, v);
    }
    m
}

fn lww(ts: u64, v: &str) -> LWWPairLattice<String> {
    TimestampValuePair::new(ts, v.to_string()).into()
}

#[test]
fn set_union_counts_each_element_once() {
    let mut a = set_of(&[1, 42]);
    a.do_merge(&set_of(&[3, 100]));
    assert_eq!(a.size(), MaxLattice(4));
    for e in [1, 3, 42, 100] {
        assert!(a.0.contains(&e));
    }

    let mut b = set_of(&[1, 42]);
    b.do_merge(&set_of(&[1, 100]));
    assert_eq!(b.size(), MaxLattice(3));
    assert_eq!(b, set_of(&[1, 42, 100]));
}

#[test]
fn set_merge_is_idempotent_commutative_associative() {
    let mut a = set_of(&[1, 2]);
    a.do_merge(&set_of(&[1, 2]));
    assert_eq!(a, set_of(&[1, 2]));

    let mut ab = set_of(&[1, 2]);
    ab.do_merge(&set_of(&[2, 3]));
    let mut ba = set_of(&[2, 3]);
    ba.do_merge(&set_of(&[1, 2]));
    assert_eq!(ab, ba);

    let mut left = set_of(&[1]);
    left.do_merge(&set_of(&[2]));
    left.do_merge(&set_of(&[3, 1]));
    let mut bc = set_of(&[2]);
    bc.do_merge(&set_of(&[3, 1]));
    let mut right = set_of(&[1]);
    right.do_merge(&bc);
    assert_eq!(left, right);
}

#[test]
fn set_merge_never_shrinks() {
    let mut a = set_of(&[5, 6, 7]);
    a.do_merge(&SetLattice::new());
    assert_eq!(a.size(), MaxLattice(3));
    let mut e: SetLattice<usize> = SetLattice::new();
    e.do_merge(&set_of(&[5, 6]));
    assert_eq!(e.size(), MaxLattice(2));
}

#[test]
fn set_intersect_with_itself_and_others() {
    let a = set_of(&[1, 42, 7]);
    assert_eq!(a.intersect(&a), set_of(&[1, 42, 7]));
    assert_eq!(a.intersect(&set_of(&[42, 8])), set_of(&[42]));
    assert_eq!(a.intersect(&SetLattice::new()), SetLattice::new());
    assert_ne!(set_of(&[1]), set_of(&[2]));
    assert_ne!(set_of(&[1]), set_of(&[1, 2]));
}

#[test]
fn ordered_set_insert_order_matters() {
    assert_eq!(ordered_of(&[1, 42]), ordered_of(&[1, 42]));
    assert_ne!(ordered_of(&[1, 42]), ordered_of(&[42, 1]));
    let mut s = ordered_of(&[1, 42]);
    s.insert(1);
    assert_eq!(items_of(&s), vec![1, 42]);
}

#[test]
fn ordered_merge_keeps_existing_positions() {
    let mut a = ordered_of(&[1, 42]);
    a.do_merge(&ordered_of(&[42, 3, 100]));
    assert_eq!(items_of(&a), vec![1, 42, 3, 100]);
}

#[test]
fn ordered_merge_order_shows_but_membership_agrees() {
    let mut ab = ordered_of(&[1]);
    ab.do_merge(&ordered_of(&[2]));
    let mut ba = ordered_of(&[2]);
    ba.do_merge(&ordered_of(&[1]));
    assert_eq!(items_of(&ab), vec![1, 2]);
    assert_eq!(items_of(&ba), vec![2, 1]);
    assert_ne!(ab, ba);
    let mut x = items_of(&ab);
    let mut y = items_of(&ba);
    x.sort();
    y.sort();
    assert_eq!(x, y);
}

#[test]
fn ordered_merge_is_idempotent_and_associative() {
    let mut a = ordered_of(&[4, 2, 9]);
    a.do_merge(&ordered_of(&[4, 2, 9]));
    assert_eq!(items_of(&a), vec![4, 2, 9]);

    let mut left = ordered_of(&[1, 5]);
    left.do_merge(&ordered_of(&[5, 2]));
    left.do_merge(&ordered_of(&[3, 1, 2, 4]));
    let mut bc = ordered_of(&[5, 2]);
    bc.do_merge(&ordered_of(&[3, 1, 2, 4]));
    let mut right = ordered_of(&[1, 5]);
    right.do_merge(&bc);
    assert_eq!(left, right);
    assert_eq!(items_of(&left), vec![1, 5, 2, 3, 4]);
}

#[test]
fn ordered_intersect_keeps_receiver_order() {
    let a = ordered_of(&[3, 1, 2]);
    assert_eq!(a.intersect(&a), ordered_of(&[3, 1, 2]));
    let r = a.intersect(&ordered_of(&[2, 3, 8]));
    assert_eq!(items_of(&r), vec![3, 2]);
    assert_eq!(a.intersect(&OrderedSetLattice::new()).size(), MaxLattice(0));
}

#[test]
fn map_merge_overwrites_on_shared_keys() {
    let mut a = map_of(&[(1, 9), (42, 8)]);
    a.do_merge(&map_of(&[(1, 9), (100, 10)]));
    assert_eq!(a.size(), MaxLattice(3));
    assert_eq!(a.get(&1), Some(&9));
    assert_eq!(a, map_of(&[(1, 9), (42, 8), (100, 10)]));

    let mut b = map_of(&[(1, 9)]);
    b.do_merge(&map_of(&[(1, 7)]));
    assert_eq!(b.get(&1), Some(&7));
}

#[test]
fn map_merge_laws_on_agreeing_maps() {
    let mut a = map_of(&[(1, 1), (2, 2)]);
    a.do_merge(&map_of(&[(1, 1), (2, 2)]));
    assert_eq!(a, map_of(&[(1, 1), (2, 2)]));

    let mut ab = map_of(&[(1, 1), (2, 2)]);
    ab.do_merge(&map_of(&[(2, 2), (3, 3)]));
    let mut ba = map_of(&[(2, 2), (3, 3)]);
    ba.do_merge(&map_of(&[(1, 1), (2, 2)]));
    assert_eq!(ab, ba);

    let mut left = map_of(&[(1, 1)]);
    left.do_merge(&map_of(&[(1, 5)]));
    left.do_merge(&map_of(&[(2, 6)]));
    let mut bc = map_of(&[(1, 5)]);
    bc.do_merge(&map_of(&[(2, 6)]));
    let mut right = map_of(&[(1, 1)]);
    right.do_merge(&bc);
    assert_eq!(left, right);
    assert!(left.size().0 >= 2);
}

#[test]
fn map_queries() {
    let m = map_of(&[(1, 9), (42, 8)]);
    let keys = m.key_set();
    assert_eq!(keys, {
        let mut s = SetLattice::new();
        s.insert(1usize);
        s.insert(42usize);
        s
    });
    assert_eq!(m.contains(&1), BoolLattice(true));
    assert_eq!(m.intersect(&map_of(&[(42, 0), (7, 7)])), map_of(&[(42, 8)]));
    let empty: MapLattice<usize, usize> = MapLattice::new();
    assert_eq!(empty.key_set().size(), MaxLattice(0));
    assert!(empty.intersect(&m).get(&1).is_none());
}

#[test]
fn map_remove_returns_value() {
    let mut m = map_of(&[(1, 9), (42, 8)]);
    assert_eq!(m.remove(&42), Some(8));
    assert_eq!(m.remove(&42), None);
    assert_eq!(m, map_of(&[(1, 9)]));
}

#[test]
fn lww_later_write_wins_either_way() {
    let mut older = lww(123, "Older");
    older.do_merge(&lww(456, "Newer"));
    assert_eq!(older.0.timestamp(), 456);
    assert_eq!(older.0.value(), "Newer");

    let mut newer = lww(456, "Newer");
    newer.do_merge(&lww(123, "Older"));
    assert_eq!(newer.0.timestamp(), 456);
    assert_eq!(newer.0.value(), "Newer");
}

#[test]
fn lww_tie_goes_to_incoming() {
    let mut a = lww(7, "mine");
    a.do_merge(&lww(7, "theirs"));
    assert_eq!(a.0.value(), "theirs");
    let mut b = lww(7, "theirs");
    b.do_merge(&lww(7, "mine"));
    assert_eq!(b.0.value(), "mine");
}

#[test]
fn lww_idempotent_and_associative() {
    let mut a = lww(10, "a");
    a.do_merge(&lww(10, "a"));
    assert_eq!((a.0.timestamp(), a.0.value().as_str()), (10, "a"));

    let mut left = lww(5, "a");
    left.do_merge(&lww(9, "b"));
    left.do_merge(&lww(9, "c"));
    let mut bc = lww(9, "b");
    bc.do_merge(&lww(9, "c"));
    let mut right = lww(5, "a");
    right.do_merge(&bc);
    assert_eq!(left.0.value(), right.0.value());
    assert_eq!(left.0.timestamp(), right.0.timestamp());
}

#[test]
fn lww_size_counts_value_and_timestamp() {
    let l: LWWPairLattice<u32> = TimestampValuePair::new(1, 5u32).into();
    assert_eq!(l.size(), 4 + 8);
    let p = TimestampValuePair::new(1, String::new());
    assert_eq!(p.size(), std::mem::size_of::<String>() + 8);
}

#[test]
fn max_lattice_merge_keeps_largest() {
    let mut m = MaxLattice::<u32>(1);
    m.do_merge(&MaxLattice::<u32>(42));
    assert_eq!(m, MaxLattice(42));
    m.do_merge(&MaxLattice::<u32>(1));
    assert_eq!(m, MaxLattice(42));
    m.do_merge(&MaxLattice::<u32>(42));
    assert_eq!(m, MaxLattice(42));

    let mut ab = MaxLattice::<u64>(3);
    ab.do_merge(&MaxLattice(8));
    let mut ba = MaxLattice::<u64>(8);
    ba.do_merge(&MaxLattice(3));
    assert_eq!(ab, ba);
}

#[test]
fn max_lattice_from_and_arithmetic() {
    let m: MaxLattice<usize> = 7.into();
    assert_eq!(m, MaxLattice(7));
    assert_eq!(MaxLattice::<u64>(u64::MAX - 1) + MaxLattice(1), MaxLattice(u64::MAX));
    assert_eq!(MaxLattice::<u32>(5) - MaxLattice(5), MaxLattice(0));
}

#[test]
fn bool_lattice_stays_true() {
    let mut b = BoolLattice(true);
    b.do_merge(&BoolLattice(false));
    assert_eq!(b, BoolLattice(true));
    let mut f = BoolLattice(false);
    f.do_merge(&BoolLattice(false));
    assert_eq!(f, BoolLattice(false));
    let from: BoolLattice = true.into();
    assert_eq!(from, BoolLattice(true));
}
