//! Core data types flowing through a stream: keys, timestamps, data messages
//! and the control messages operators exchange.
use vstd::prelude::*;

use crate::worker_set::WorkerSet;

verus! {

/// Identifier of a worker in the job.
pub type WorkerId = u64;

/// Identifier of an operator in the dataflow graph.
pub type OperatorId = u64;

/// Key type of streams which are not keyed.
#[derive(Clone, Copy, Debug, PartialEq, Eq, Structural)]
pub struct NoKey;

/// Time of a stream without any notion of time.
#[derive(Clone, Copy, Debug, PartialEq, Eq, Structural)]
pub struct NoTime;

/// A timestamp of a stream.
///
/// Every timestamp type is totally ordered through `rank` and has a largest
/// value, `MAX`, which marks the end of a stream.
pub trait Timestamp: Sized + Copy {
    /// Position of this timestamp in the total order of its type.
    spec fn rank(self) -> int;

    /// Rank of the largest timestamp of this type.
    spec fn max_rank() -> int;

    /// Two timestamps of the same rank are the same timestamp.
    proof fn rank_injective(a: Self, b: Self)
        ensures
            a.rank() == b.rank() ==> a == b,
    ;

    /// No timestamp lies beyond `MAX`.
    proof fn rank_at_most_max(a: Self)
        ensures
            a.rank() <= Self::max_rank(),
    ;

    /// The largest timestamp, marking that a stream has finished.
    fn max_value() -> (r: Self)
        ensures
            r.rank() == Self::max_rank(),
    ;

    /// Strict order: `self` comes before `other`.
    fn before(&self, other: &Self) -> (b: bool)
        ensures
            b == (self.rank() < other.rank()),
    ;

    /// Whether this is the `MAX` timestamp.
    fn is_max(&self) -> (b: bool)
        ensures
            b == (self.rank() == Self::max_rank()),
    ;
}

impl Timestamp for i32 {
    open spec fn rank(self) -> int {
        self as int
    }

    open spec fn max_rank() -> int {
        i32::MAX as int
    }

    proof fn rank_injective(a: Self, b: Self) {
    }

    proof fn rank_at_most_max(a: Self) {
    }

    fn max_value() -> (r: Self) {
        i32::MAX
    }

    fn before(&self, other: &Self) -> (b: bool) {
        *self < *other
    }

    fn is_max(&self) -> (b: bool) {
        *self == i32::MAX
    }
}

impl Timestamp for i64 {
    open spec fn rank(self) -> int {
        self as int
    }

    open spec fn max_rank() -> int {
        i64::MAX as int
    }

    proof fn rank_injective(a: Self, b: Self) {
    }

    proof fn rank_at_most_max(a: Self) {
    }

    fn max_value() -> (r: Self) {
        i64::MAX
    }

    fn before(&self, other: &Self) -> (b: bool) {
        *self < *other
    }

    fn is_max(&self) -> (b: bool) {
        *self == i64::MAX
    }
}

impl Timestamp for u64 {
    open spec fn rank(self) -> int {
        self as int
    }

    open spec fn max_rank() -> int {
        u64::MAX as int
    }

    proof fn rank_injective(a: Self, b: Self) {
    }

    proof fn rank_at_most_max(a: Self) {
    }

    fn max_value() -> (r: Self) {
        u64::MAX
    }

    fn before(&self, other: &Self) -> (b: bool) {
        *self < *other
    }

    fn is_max(&self) -> (b: bool) {
        *self == u64::MAX
    }
}

impl Timestamp for usize {
    open spec fn rank(self) -> int {
        self as int
    }

    open spec fn max_rank() -> int {
        usize::MAX as int
    }

    proof fn rank_injective(a: Self, b: Self) {
    }

    proof fn rank_at_most_max(a: Self) {
    }

    fn max_value() -> (r: Self) {
        usize::MAX
    }

    fn before(&self, other: &Self) -> (b: bool) {
        *self < *other
    }

    fn is_max(&self) -> (b: bool) {
        *self == usize::MAX
    }
}

/// Time of an untimed stream: every record carries `OnceTime(false)` and the
/// stream ends with `OnceTime(true)`.
#[derive(Clone, Copy, Debug, PartialEq, Eq, Structural)]
pub struct OnceTime(pub bool);

impl OnceTime {
    /// The timestamp of every record of an untimed stream.
    pub fn min_value() -> (r: OnceTime)
        ensures
            r == OnceTime(false),
    {
        OnceTime(false)
    }
}

impl Timestamp for OnceTime {
    open spec fn rank(self) -> int {
        if self.0 {
            1
        } else {
            0
        }
    }

    open spec fn max_rank() -> int {
        1
    }

    proof fn rank_injective(a: Self, b: Self) {
    }

    proof fn rank_at_most_max(a: Self) {
    }

    fn max_value() -> (r: Self) {
        OnceTime(true)
    }

    fn before(&self, other: &Self) -> (b: bool) {
        !self.0 && other.0
    }

    fn is_max(&self) -> (b: bool) {
        self.0
    }
}

/// A record of a stream: a value with its key and timestamp.
#[derive(Clone, Debug)]
pub struct DataMessage<K, V, T> {
    pub key: K,
    pub value: V,
    pub timestamp: T,
}

impl<K, V, T> DataMessage<K, V, T> {
    /// Create a data message from its three parts.
    pub fn new(key: K, value: V, timestamp: T) -> (r: Self)
        ensures
            r == (DataMessage { key, value, timestamp }),
    {
        DataMessage { key, value, timestamp }
    }
}

/// Request to report all keys for which an operator holds state.
pub struct Interrogate<K> {
    pub keys: Vec<K>,
}

impl<K> Interrogate<K> {
    /// A fresh interrogation with no keys reported yet.
    pub fn new() -> (r: Self)
        ensures
            r.keys@ == Seq::<K>::empty(),
    {
        Interrogate { keys: Vec::new() }
    }
}

/// Request to hand over the state of one key, which moves to another worker.
pub struct Collect<K> {
    pub key: K,
}

/// Request to take over the state of one key from another worker.
pub struct Acquire<K> {
    pub key: K,
}

/// A snapshot or suspend barrier, aligned across all inputs of an operator.
#[derive(Clone, Copy, Debug, PartialEq, Eq, Structural)]
pub struct Barrier {
    /// Snapshot version the barrier belongs to.
    pub version: u64,
}

/// Announces the complete worker set of the job during a rescale.
pub struct RescaleMessage {
    pub all_workers: WorkerSet,
}

/// Announces the worker set after a rescale has completed.
pub struct ReconfigComplete {
    pub new_workers: WorkerSet,
}

/// A message travelling along a stream edge.
pub enum Message<K, V, T> {
    Data(DataMessage<K, V, T>),
    Epoch(T),
    Interrogate(Interrogate<K>),
    Collect(Collect<K>),
    Acquire(Acquire<K>),
    AbsBarrier(Barrier),
    Rescale(RescaleMessage),
    ReconfigComplete(ReconfigComplete),
}

/// Whether a message belongs to the keyed-state transfer protocol
/// (interrogate, collect, acquire). Such messages never cross a change of key.
pub open spec fn is_key_message<K, V, T>(m: Message<K, V, T>) -> bool {
    m is Interrogate || m is Collect || m is Acquire
}

} // verus!
