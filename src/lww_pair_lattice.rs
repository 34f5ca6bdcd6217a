use crate::lattice::{clones_exactly, Lattice};
use std::time::{Duration, SystemTime, SystemTimeError, UNIX_EPOCH};
use vstd::layout::{layout_for_type_is_valid, size_of};
use vstd::pervasive::cloned;
use vstd::prelude::*;

verus! {

#[verifier::external_type_specification]
#[verifier::external_body]
pub struct ExSystemTime(SystemTime);

#[verifier::external_type_specification]
#[verifier::external_body]
pub struct ExSystemTimeError(SystemTimeError);

/// The wall clock could not be read as a time after the Unix epoch.
#[derive(Debug, PartialEq, Eq, Structural)]
pub enum ClockError {
    BeforeEpoch,
}

/// Relies on `SystemTime::now`: the current wall-clock time. Nothing is
/// promised of its value.
#[verifier::external_body]
fn clock_now() -> SystemTime {
    SystemTime::now()
}

/// Relies on `SystemTime::duration_since`: the time elapsed since the Unix
/// epoch, or an error where the clock reads earlier than the epoch.
#[verifier::external_body]
fn elapsed_since_epoch(t: &SystemTime) -> Result<Duration, SystemTimeError> {
    t.duration_since(UNIX_EPOCH)
}

/// Relies on `Duration::as_secs`: the whole seconds of a duration.
#[verifier::external_body]
fn whole_seconds(d: &Duration) -> u64 {
    d.as_secs()
}

/// A value tagged with the time it was written, in seconds since the Unix
/// epoch.
pub struct TimestampValuePair<T> {
    timestamp: u64,
    value: T,
}

impl<T> View for TimestampValuePair<T> {
    type V = (u64, T);

    closed spec fn view(&self) -> (u64, T) {
        (self.timestamp, self.value)
    }
}

impl<T> TimestampValuePair<T> {
    /// A pair with an explicit timestamp.
    pub fn new(timestamp: u64, value: T) -> (r: TimestampValuePair<T>)
        ensures
            r@ == (timestamp, value),
    {
        TimestampValuePair { timestamp, value }
    }

    /// A pair stamped with the current wall-clock time, or `ClockError`
    /// where the clock reads earlier than the epoch. The value is kept
    /// as given.
    pub fn now(value: T) -> (r: Result<TimestampValuePair<T>, ClockError>)
        ensures
            r matches Ok(p) ==> p@.1 == value,
    {
        let t = clock_now();
        match elapsed_since_epoch(&t) {
            Ok(d) => Ok(TimestampValuePair::new(whole_seconds(&d), value)),
            Err(_) => Err(ClockError::BeforeEpoch),
        }
    }

    /// The bytes that the timestamp and the value take in memory.
    pub fn size(&self) -> (r: usize)
        ensures
            r == size_of::<T>() + 8,
    {
        layout_for_type_is_valid::<T>();
        core::mem::size_of::<T>() + core::mem::size_of::<u64>()
    }

    /// The write time.
    pub fn timestamp(&self) -> (r: u64)
        ensures
            r == self@.0,
    {
        self.timestamp
    }

    /// The value written.
    pub fn value(&self) -> (r: &T)
        ensures
            *r == self@.1,
    {
        &self.value
    }
}

impl<T: Default> Default for TimestampValuePair<T> {
    fn default() -> (r: TimestampValuePair<T>)
        ensures
            r@.0 == 0,
    {
        TimestampValuePair { timestamp: 0, value: T::default() }
    }
}

/// Last writer wins: a merge keeps the pair with the later timestamp, and
/// the incoming pair where the timestamps are equal.
pub struct LWWPairLattice<T>(pub TimestampValuePair<T>);

impl<T> View for LWWPairLattice<T> {
    type V = (u64, T);

    open spec fn view(&self) -> (u64, T) {
        self.0@
    }
}

/// `b` where its timestamp is at least that of `a`; `a` otherwise.
pub open spec fn later_of<T>(a: (u64, T), b: (u64, T)) -> (u64, T) {
    if b.0 >= a.0 {
        b
    } else {
        a
    }
}

impl<T: Clone> Lattice for LWWPairLattice<T> {
    open spec fn merge_ready() -> bool {
        clones_exactly::<T>()
    }

    open spec fn join(a: (u64, T), b: (u64, T)) -> (u64, T) {
        later_of(a, b)
    }

    fn do_merge(&mut self, l: &LWWPairLattice<T>) {
        if l.0.timestamp >= self.0.timestamp {
            self.0.timestamp = l.0.timestamp;
            let v = l.0.value.clone();
            assert(cloned(l.0.value, v));
            self.0.value = v;
        }
    }
}

impl<T> LWWPairLattice<T> {
    /// The bytes that the held timestamp and value take in memory.
    pub fn size(&self) -> (r: usize)
        ensures
            r == size_of::<T>() + 8,
    {
        self.0.size()
    }
}

impl<T> From<TimestampValuePair<T>> for LWWPairLattice<T> {
    fn from(tsv: TimestampValuePair<T>) -> (r: LWWPairLattice<T>)
        ensures
            r@ == tsv@,
    {
        LWWPairLattice(tsv)
    }
}

impl<T> vstd::std_specs::convert::FromSpecImpl<TimestampValuePair<T>> for LWWPairLattice<T> {
    open spec fn obeys_from_spec() -> bool {
        true
    }

    open spec fn from_spec(tsv: TimestampValuePair<T>) -> LWWPairLattice<T> {
        LWWPairLattice(tsv)
    }
}

/// Last-writer-wins merging is idempotent and associative, and never moves
/// the timestamp backward. It is commutative except where both sides carry
/// the same timestamp with different values: there the incoming value wins.
pub proof fn lemma_lww_lattice_laws<T: Clone>(
    a: LWWPairLattice<T>,
    b: LWWPairLattice<T>,
    c: LWWPairLattice<T>,
)
    ensures
        LWWPairLattice::<T>::join(a@, a@) == a@,
        LWWPairLattice::<T>::join(LWWPairLattice::<T>::join(a@, b@), c@) == LWWPairLattice::<
            T,
        >::join(a@, LWWPairLattice::<T>::join(b@, c@)),
        LWWPairLattice::<T>::join(a@, b@).0 >= a@.0,
        LWWPairLattice::<T>::join(a@, b@).0 >= b@.0,
        a@.0 != b@.0 || a@.1 == b@.1 ==> LWWPairLattice::<T>::join(a@, b@)
            == LWWPairLattice::<T>::join(b@, a@),
{
}

} // verus!
