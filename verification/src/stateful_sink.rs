//! Stateful sinks: sinks split into partitions which hold persistent state and
//! move between workers when the worker set changes.
use vstd::prelude::*;

use std::collections::HashMap;

use crate::keyed::forwarded_control;
use crate::stateful::map_keys;
use crate::types::{DataMessage, Interrogate, Message};

verus! {

broadcast use vstd::std_specs::hash::group_hash_axioms;

/// Key by which a partition of a stateful sink is uniquely identified.
pub type Part = u64;

/// A partition of a stateful sink. Implemented by users for their outputs.
pub trait StatefulSinkPartition<K, V, T> {
    /// State of the partition, persisted across job restarts and moved with
    /// the partition to a different worker when the worker set changes.
    type PartitionState;

    /// The records this partition has emitted, in order.
    /// Every implementation is bound by the contracts below, which speak of
    /// this function: an implementation defines it so that they hold (the
    /// default, an unspecified value, cannot meet them).
    closed spec fn records(&self) -> Seq<DataMessage<K, V, T>> {
        arbitrary()
    }

    /// The current state of this partition.
    /// Every implementation is bound by the contracts below, which speak of
    /// this function: an implementation defines it so that they hold (the
    /// default, an unspecified value, cannot meet them).
    closed spec fn state(&self) -> Self::PartitionState {
        arbitrary()
    }

    /// Emit one record.
    fn sink(&mut self, msg: DataMessage<K, V, T>)
        ensures
            final(self).records() == old(self).records().push(msg),
    ;

    /// The current state of this partition.
    fn snapshot(&self) -> (r: Self::PartitionState)
        ensures
            r == self.state(),
    ;

    /// Shut this partition down, returning its state; called when the
    /// partition moves to another worker.
    fn collect(self) -> (r: Self::PartitionState)
        ensures
            r == self.state(),
    ;
}

/// Implementation of a stateful sink. Implemented by users for their outputs.
pub trait StatefulSinkImpl<K, V, T> {
    /// State of a partition of this sink.
    type PartitionState;
    /// A partition of this sink.
    type SinkPartition: StatefulSinkPartition<K, V, T, PartitionState = Self::PartitionState>;

    /// The part a record belongs to.
    /// Every implementation is bound by the contracts below, which speak of
    /// this function: an implementation defines it so that they hold (the
    /// default, an unspecified value, cannot meet them).
    closed spec fn part_of(&self, msg: DataMessage<K, V, T>) -> Part {
        arbitrary()
    }

    /// Whether `p` is a partition this sink builds for `part` from
    /// `part_state`.
    /// Every implementation is bound by the contracts below, which speak of
    /// this function: an implementation defines it so that they hold (the
    /// default, an unspecified value, cannot meet them).
    closed spec fn builds(&self, part: Part, part_state: Option<Self::PartitionState>, p: Self::SinkPartition) -> bool {
        arbitrary()
    }

    /// The partition a message belongs to. Must be stable and deterministic.
    fn assign_part(&self, msg: &DataMessage<K, V, T>) -> (r: Part)
        ensures
            r == self.part_of(*msg),
    ;

    /// Build the partition for the given part, from its state if it has one.
    fn build_part(&mut self, part: Part, part_state: Option<Self::PartitionState>) -> (r: Self::SinkPartition)
        ensures
            old(self).builds(part, part_state, r),
    ;
}

/// The record handed to a partition for a message keyed by its part: the
/// original key, value and timestamp.
pub open spec fn unpart<K, V, T>(m: DataMessage<Part, (K, V), T>) -> DataMessage<K, V, T> {
    DataMessage { key: m.value.0, value: m.value.1, timestamp: m.timestamp }
}

/// A sink which emits records and holds some persistent state, wrapping an
/// implementation.
pub struct StatefulSink<S> {
    pub sink_impl: S,
}

impl<S> StatefulSink<S> {
    /// Create a new stateful sink by wrapping an implementation.
    pub fn new(sink_impl: S) -> (r: Self)
        ensures
            r.sink_impl == sink_impl,
    {
        StatefulSink { sink_impl }
    }

    /// First step of the sink: key every data message by its partition,
    /// carrying the original key and value. Keyed-state messages are dropped
    /// (the partitions are redistributed by key next); every other control
    /// message is forwarded.
    pub fn assign_parts<K, V, T>(&self, msg: Message<K, V, T>) -> (out: Option<Message<Part, (K, V), T>>) where
        S: StatefulSinkImpl<K, V, T>,

        ensures
            msg is Data ==> (out matches Some(Message::Data(nd)) && nd.key == self.sink_impl.part_of(
                msg->Data_0,
            ) && nd.value == (msg->Data_0.key, msg->Data_0.value) && nd.timestamp
                == msg->Data_0.timestamp),
            forwarded_control(msg, out),
    {
        match msg {
            Message::Data(d) => {
                let part = self.sink_impl.assign_part(&d);
                Some(Message::Data(DataMessage::new(part, (d.key, d.value), d.timestamp)))
            },
            Message::Epoch(e) => Some(Message::Epoch(e)),
            Message::AbsBarrier(b) => Some(Message::AbsBarrier(b)),
            Message::Rescale(x) => Some(Message::Rescale(x)),
            Message::ReconfigComplete(x) => Some(Message::ReconfigComplete(x)),
            Message::Interrogate(_) => None,
            Message::Collect(_) => None,
            Message::Acquire(_) => None,
        }
    }
}

/// Last step of a stateful sink: the partitions located at this worker.
pub struct StatefulSinkPartitionOp<P, B> {
    partitions: HashMap<Part, P>,
    part_builder: B,
}

impl<P, B> StatefulSinkPartitionOp<P, B> {
    /// The parts whose partition is located here.
    pub closed spec fn parts(&self) -> Set<Part> {
        self.partitions@.dom()
    }

    /// The implementation building partitions.
    pub closed spec fn builder(&self) -> B {
        self.part_builder
    }

    /// The partitions located here.
    pub closed spec fn partitions(&self) -> Map<Part, P> {
        self.partitions@
    }

    /// An operator without partitions.
    pub fn new(part_builder: B) -> (r: Self)
        ensures
            r.parts() == Set::<Part>::empty(),
            r.builder() == part_builder,
    {
        StatefulSinkPartitionOp { partitions: HashMap::new(), part_builder }
    }

    /// Hand a record to its partition, building the partition (without
    /// state) if it is not here yet.
    pub fn on_data<K, V, T>(&mut self, data_message: DataMessage<Part, (K, V), T>) where
        B: StatefulSinkImpl<K, V, T, SinkPartition = P>,
        P: StatefulSinkPartition<K, V, T>,

        ensures
            final(self).parts() == old(self).parts().insert(data_message.key),
            final(self).partitions().remove(data_message.key) == old(self).partitions().remove(
                data_message.key,
            ),
            old(self).parts().contains(data_message.key) ==> {
                &&& final(self).partitions()[data_message.key].records() == old(
                    self,
                ).partitions()[data_message.key].records().push(unpart(data_message))
                &&& final(self).builder() == old(self).builder()
            },
            !old(self).parts().contains(data_message.key) ==> exists|built: P|
                {
                    &&& #[trigger] old(self).builder().builds(data_message.key, None, built)
                    &&& final(self).partitions()[data_message.key].records() == built.records().push(
                        unpart(data_message),
                    )
                },
    {
        let ghost dm = data_message;
        let part = data_message.key;
        let (key, value) = data_message.value;
        let msg = DataMessage::new(key, value, data_message.timestamp);
        let ghost m = msg;
        let mut partition = match self.partitions.remove(&part) {
            Some(p) => p,
            None => self.part_builder.build_part(part, None),
        };
        let ghost built = partition;
        partition.sink(msg);
        self.partitions.insert(part, partition);
        proof {
            assert(m == unpart(dm));
            assert(self.parts() =~= old(self).parts().insert(part));
            assert(self.partitions().remove(part) =~= old(self).partitions().remove(part));
            if !old(self).parts().contains(part) {
                assert(old(self).builder().builds(part, None, built));
            }
        }
    }

    /// Add a partition built from a state taken over from another worker.
    pub fn add_partition<K, V, T>(&mut self, part: Part, part_state: Option<B::PartitionState>) where
        B: StatefulSinkImpl<K, V, T, SinkPartition = P>,

        ensures
            final(self).parts() == old(self).parts().insert(part),
            final(self).partitions().remove(part) == old(self).partitions().remove(part),
            old(self).builder().builds(part, part_state, final(self).partitions()[part]),
    {
        let partition = self.part_builder.build_part(part, part_state);
        self.partitions.insert(part, partition);
        proof {
            assert(self.partitions().remove(part) =~= old(self).partitions().remove(part));
        }
    }

    /// Take over the partition of `part` from another worker, if that worker
    /// handed over a state for it.
    pub fn on_acquire<K, V, T>(&mut self, part: Part, part_state: Option<B::PartitionState>) where
        B: StatefulSinkImpl<K, V, T, SinkPartition = P>,

        ensures
            part_state is Some ==> {
                &&& final(self).parts() == old(self).parts().insert(part)
                &&& final(self).partitions().remove(part) == old(self).partitions().remove(part)
                &&& old(self).builder().builds(part, part_state, final(self).partitions()[part])
            },
            part_state is None ==> final(self).partitions() == old(self).partitions()
                && final(self).builder() == old(self).builder(),
    {
        match part_state {
            Some(s) => self.add_partition(part, Some(s)),
            None => {},
        }
    }

    /// Hand over the partition of `part`, which moves to another worker: it
    /// is shut down and its state returned. Nothing is returned if the
    /// partition is not here.
    pub fn on_collect<K, V, T>(&mut self, part: Part) -> (r: Option<P::PartitionState>) where
        P: StatefulSinkPartition<K, V, T>,

        ensures
            final(self).partitions() == old(self).partitions().remove(part),
            final(self).builder() == old(self).builder(),
            r == (if old(self).parts().contains(part) {
                Some(old(self).partitions()[part].state())
            } else {
                None
            }),
    {
        let r = match self.partitions.remove(&part) {
            Some(partition) => Some(partition.collect()),
            None => None,
        };
        proof {
            assert(self.partitions() =~= old(self).partitions().remove(part));
        }
        r
    }

    /// Report every part whose partition is here.
    pub fn on_interrogate(&self, interrogate: &mut Interrogate<Part>)
        ensures
            final(interrogate).keys@.take(old(interrogate).keys@.len() as int) == old(
                interrogate,
            ).keys@,
            final(interrogate).keys@.skip(old(interrogate).keys@.len() as int).to_set() == self.parts(),
            final(interrogate).keys@.skip(old(interrogate).keys@.len() as int).no_duplicates(),
    {
        let keys = map_keys(&self.partitions);
        let ghost start = interrogate.keys@;
        let mut i: usize = 0;
        while i < keys.len()
            invariant
                i <= keys@.len(),
                interrogate.keys@ == start + keys@.take(i as int),
            decreases keys.len() - i,
        {
            interrogate.keys.push(keys[i]);
            proof {
                assert(keys@.take(i + 1) == keys@.take(i as int).push(keys@[i as int]));
            }
            i = i + 1;
        }
        proof {
            assert(keys@.take(keys@.len() as int) == keys@);
            assert(interrogate.keys@.skip(start.len() as int) == keys@);
            assert(interrogate.keys@.take(start.len() as int) == start);
        }
    }

    /// The state of every partition here, to persist when a snapshot barrier
    /// passes: one entry per part.
    pub fn on_barrier<K, V, T>(&self) -> (r: Vec<(Part, P::PartitionState)>) where
        P: StatefulSinkPartition<K, V, T>,

        ensures
            r@.map_values(|e: (Part, P::PartitionState)| e.0).to_set() == self.parts(),
            r@.map_values(|e: (Part, P::PartitionState)| e.0).no_duplicates(),
            forall|i: int|
                0 <= i < r@.len() ==> (#[trigger] r@[i]).1 == self.partitions()[r@[i].0].state(),
    {
        let keys = map_keys(&self.partitions);
        let mut r: Vec<(Part, P::PartitionState)> = Vec::new();
        let mut i: usize = 0;
        while i < keys.len()
            invariant
                i <= keys@.len(),
                keys@.to_set() == self.parts(),
                r@.map_values(|e: (Part, P::PartitionState)| e.0) == keys@.take(i as int),
                forall|j: int|
                    0 <= j < r@.len() ==> (#[trigger] r@[j]).1 == self.partitions()[r@[j].0].state(),
            decreases keys.len() - i,
        {
            let k = keys[i];
            proof {
                assert(keys@.to_set().contains(k));
            }
            let partition = self.partitions.get(&k).unwrap();
            let state = partition.snapshot();
            r.push((k, state));
            proof {
                assert(keys@.take(i + 1) == keys@.take(i as int).push(k));
                assert(r@.map_values(|e: (Part, P::PartitionState)| e.0) =~= keys@.take(i + 1));
            }
            i = i + 1;
        }
        proof {
            assert(keys@.take(keys@.len() as int) == keys@);
        }
        r
    }
}

/// Law: a partition handed over to another worker and taken back again is
/// located here again, alongside exactly the partitions that stayed.
pub proof fn handed_back_partition_is_here_again<P>(partitions: Map<Part, P>, part: Part)
    requires
        partitions.contains_key(part),
    ensures
        partitions.remove(part).dom().insert(part) == partitions.dom(),
        !partitions.remove(part).dom().contains(part),
{
    assert(partitions.remove(part).dom().insert(part) =~= partitions.dom());
}

} // verus!
