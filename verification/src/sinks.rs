//! Sinks: the end of a stream, where messages leave the dataflow.
use vstd::prelude::*;

use crate::types::{DataMessage, Message, Timestamp};

verus! {

/// Implementation of a stateless stream sink: emits single records somewhere
/// outside the dataflow. Implemented by users for the outputs they need.
pub trait StatelessSinkImpl<K, V, T> {
    /// The records this sink has emitted, in order.
    /// Every implementation is bound by the contracts below, which speak of
    /// this function: an implementation defines it so that they hold (the
    /// default, an unspecified value, cannot meet them).
    closed spec fn records(&self) -> Seq<DataMessage<K, V, T>> {
        arbitrary()
    }

    /// Emit a single record.
    fn sink(&mut self, msg: DataMessage<K, V, T>)
        ensures
            final(self).records() == old(self).records().push(msg),
    ;
}

/// A sink which holds no state (or only ephemeral state), wrapping a sink
/// implementation.
pub struct StatelessSink<S> {
    pub sink_impl: S,
}

impl<S> StatelessSink<S> {
    /// Create a new stateless sink by wrapping a sink implementation.
    pub fn new(sink: S) -> (r: Self)
        ensures
            r.sink_impl == sink,
    {
        StatelessSink { sink_impl: sink }
    }

    /// Process one message. Data messages are handed to the sink
    /// implementation; the `MAX` epoch marks the end of the stream, on which
    /// the sink closes its output, which is signalled by returning `true`.
    /// Every other message is ignored.
    pub fn apply<K, V, T: Timestamp>(&mut self, msg: Message<K, V, T>) -> (close: bool) where
        S: StatelessSinkImpl<K, V, T>,

        ensures
            close == (msg is Epoch && msg->Epoch_0.rank() == T::max_rank()),
            !(msg is Data) ==> *final(self) == *old(self),
            msg is Data ==> final(self).sink_impl.records() == old(self).sink_impl.records().push(
                msg->Data_0,
            ),
    {
        match msg {
            Message::Data(d) => {
                self.sink_impl.sink(d);
                false
            },
            Message::Epoch(e) => e.is_max(),
            _ => false,
        }
    }
}

} // verus!
