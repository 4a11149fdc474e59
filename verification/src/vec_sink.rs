//! A shared vector to collect values from a stream, mainly for tests.
use vstd::prelude::*;

use std::ops::{Bound, RangeBounds};
use std::sync::{Arc, Mutex, MutexGuard};

use crate::sinks::StatelessSinkImpl;
use crate::types::DataMessage;

verus! {

#[verifier::external_type_specification]
#[verifier::external_body]
#[verifier::reject_recursive_types(T)]
pub struct ExMutex<T: ?Sized>(Mutex<T>);

#[verifier::external_type_specification]
#[verifier::external_body]
#[verifier::reject_recursive_types(T)]
pub struct ExMutexGuard<'a, T: ?Sized + 'a>(MutexGuard<'a, T>);

/// `Mutex::new`. What a mutex holds is shared with every holder of a
/// reference to it, so no contract speaks of its contents.
#[verifier::external_body]
fn mutex_new<T>(v: Vec<T>) -> Mutex<Vec<T>> {
    Mutex::new(v)
}

/// `Mutex::lock`, waiting until the lock is free. A lock poisoned by a
/// panicking holder is taken over as it is instead of panicking. Nothing is
/// stated of the contents, which other holders may have changed.
#[verifier::external_body]
fn mutex_lock<'a, T>(m: &'a Mutex<Vec<T>>) -> MutexGuard<'a, Vec<T>> {
    match m.lock() {
        Ok(g) => g,
        Err(poisoned) => poisoned.into_inner(),
    }
}

/// `DerefMut` of a mutex guard: the vector the guard protects.
#[verifier::external_body]
fn guard_vec<'a, 'b, T>(g: &'b mut MutexGuard<'a, Vec<T>>) -> &'b mut Vec<T> {
    &mut **g
}

/// One end of a range of indices.
pub enum RangeEnd {
    Included(usize),
    Excluded(usize),
    Unbounded,
}

/// `RangeBounds::start_bound`, converted to a `RangeEnd`. What it returns is
/// up to the implementation of the range type, so nothing is stated.
#[verifier::external_body]
fn range_start<R: RangeBounds<usize>>(r: &R) -> RangeEnd {
    match r.start_bound() {
        Bound::Included(x) => RangeEnd::Included(*x),
        Bound::Excluded(x) => RangeEnd::Excluded(*x),
        Bound::Unbounded => RangeEnd::Unbounded,
    }
}

/// `RangeBounds::end_bound`, converted to a `RangeEnd`. What it returns is up
/// to the implementation of the range type, so nothing is stated.
#[verifier::external_body]
fn range_end<R: RangeBounds<usize>>(r: &R) -> RangeEnd {
    match r.end_bound() {
        Bound::Included(x) => RangeEnd::Included(*x),
        Bound::Excluded(x) => RangeEnd::Excluded(*x),
        Bound::Unbounded => RangeEnd::Unbounded,
    }
}

/// First index of a range.
pub open spec fn range_lo(start: RangeEnd) -> int {
    match start {
        RangeEnd::Included(x) => x as int,
        RangeEnd::Excluded(x) => x + 1,
        RangeEnd::Unbounded => 0,
    }
}

/// One past the last index of a range over `len` elements.
pub open spec fn range_hi(end: RangeEnd, len: nat) -> int {
    match end {
        RangeEnd::Included(x) => x + 1,
        RangeEnd::Excluded(x) => x as int,
        RangeEnd::Unbounded => len as int,
    }
}

/// Whether a range fits a vector of `len` elements: its start is not after
/// its end, and its end is not past the vector's end. Draining any other
/// range from a `Vec` panics.
pub open spec fn range_fits(start: RangeEnd, end: RangeEnd, len: nat) -> bool {
    range_lo(start) <= range_hi(end, len) <= len
}

/// Resolve a range against a length: `(lo, hi)` where the range fits,
/// `None` where draining it would panic.
pub fn resolve_range(start: RangeEnd, end: RangeEnd, len: usize) -> (r: Option<(usize, usize)>)
    ensures
        r is Some <==> range_fits(start, end, len as nat),
        r matches Some(b) ==> b.0 == range_lo(start) && b.1 == range_hi(end, len as nat),
{
    let hi = match end {
        RangeEnd::Included(x) => if x >= len {
            return None;
        } else {
            x + 1
        },
        RangeEnd::Excluded(x) => if x > len {
            return None;
        } else {
            x
        },
        RangeEnd::Unbounded => len,
    };
    let lo = match start {
        RangeEnd::Included(x) => x,
        RangeEnd::Excluded(x) => if x >= hi {
            return None;
        } else {
            x + 1
        },
        RangeEnd::Unbounded => 0,
    };
    if lo > hi {
        None
    } else {
        Some((lo, hi))
    }
}

/// Remove the elements `lo..hi` from `v` and return them in order; the
/// elements after them move up.
pub fn drain_range<T>(v: &mut Vec<T>, lo: usize, hi: usize) -> (r: Vec<T>)
    requires
        lo <= hi <= old(v)@.len(),
    ensures
        r@ == old(v)@.subrange(lo as int, hi as int),
        final(v)@ == old(v)@.subrange(0, lo as int) + old(v)@.subrange(
            hi as int,
            old(v)@.len() as int,
        ),
{
    let mut tail = v.split_off(hi);
    let middle = v.split_off(lo);
    v.append(&mut tail);
    middle
}

/// A helper to write values into a shared vector and take them out again.
///
/// Clones of a `VecSink` share the same vector: what is given to one clone
/// can be drained from any other. This is mainly useful to extract values from
/// a stream in unit tests.
#[derive(Clone)]
#[verifier::reject_recursive_types(T)]
pub struct VecSink<T> {
    inner: Arc<Mutex<Vec<T>>>,
    /// The values this handle emitted as a stream sink, in order.
    emitted: Ghost<Seq<T>>,
}

impl<T> VecSink<T> {
    /// The values this handle emitted as a stream sink, in order. They went
    /// to the shared vector; what that vector holds now also depends on the
    /// other clones.
    pub closed spec fn emitted(&self) -> Seq<T> {
        self.emitted@
    }

    /// Create a new sink with an empty shared vector.
    pub fn new() -> (r: Self)
        ensures
            r.emitted() == Seq::<T>::empty(),
    {
        VecSink { inner: Arc::new(mutex_new(Vec::new())), emitted: Ghost(Seq::empty()) }
    }

    /// Append a value to the shared vector.
    pub fn give(&self, value: T) {
        let mut guard = mutex_lock(&self.inner);
        let v = guard_vec(&mut guard);
        v.push(value);
    }

    /// Take the given range of values out of the shared vector, in order;
    /// the values after the range move up. `None` where the range does not
    /// fit the vector (its start is after its end, or its end is past the
    /// vector's end), and the vector is left as it is.
    ///
    /// Other clones may change the shared vector at any time, so what is
    /// drained is not stated here; it is computed by `resolve_range` and
    /// `drain_range` on the vector as it is while the lock is held.
    pub fn drain_vec<R: RangeBounds<usize>>(&self, range: R) -> (r: Option<Vec<T>>) {
        let start = range_start(&range);
        let end = range_end(&range);
        let mut guard = mutex_lock(&self.inner);
        let v = guard_vec(&mut guard);
        match resolve_range(start, end, v.len()) {
            Some((lo, hi)) => Some(drain_range(v, lo, hi)),
            None => None,
        }
    }

    /// Take all values out of the shared vector.
    pub fn into_vec(self) -> (r: Vec<T>) {
        let mut guard = mutex_lock(&self.inner);
        let v = guard_vec(&mut guard);
        let len = v.len();
        drain_range(v, 0, len)
    }
}

impl<K, V, T> StatelessSinkImpl<K, V, T> for VecSink<DataMessage<K, V, T>> {
    closed spec fn records(&self) -> Seq<DataMessage<K, V, T>> {
        self.emitted@
    }

    /// Append the record to the shared vector.
    fn sink(&mut self, msg: DataMessage<K, V, T>) {
        let ghost m = msg;
        self.give(msg);
        self.emitted = Ghost(self.emitted@.push(m));
    }
}

} // verus!
