//! Stateless operators: forwarding, filtering and inspecting messages.
use vstd::prelude::*;

use crate::types::{DataMessage, Message};

verus! {

/// No-op forwarding logic used to wire stream edges (union and split
/// combinators).
pub struct Forward;

impl Forward {
    /// Create the forwarding logic.
    pub fn new() -> (r: Forward) {
        Forward
    }

    /// Forward a data message unchanged.
    pub fn on_data<K, V, T>(&self, data_message: DataMessage<K, V, T>) -> (out: Message<K, V, T>)
        ensures
            out == Message::Data(data_message),
    {
        Message::Data(data_message)
    }
}

/// Operator retaining the data messages whose value satisfies a predicate.
/// Every other message passes unchanged.
pub struct FilterOp<F> {
    pub predicate: F,
}

impl<F> FilterOp<F> {
    /// Create the operator from its predicate.
    pub fn new(predicate: F) -> (r: Self)
        ensures
            r.predicate == predicate,
    {
        FilterOp { predicate }
    }

    /// Process one input message, producing at most one output message.
    pub fn apply<K, V, T>(&self, msg: Message<K, V, T>) -> (out: Option<Message<K, V, T>>) where
        F: Fn(&V) -> bool,

        requires
            forall|v: V| #[trigger] self.predicate.requires((&v,)),
        ensures
            msg is Data ==> exists|keep: bool|
                {
                    &&& #[trigger] self.predicate.ensures((&msg->Data_0.value,), keep)
                    &&& keep ==> out == Some(msg)
                    &&& !keep ==> out is None
                },
            !(msg is Data) ==> out == Some(msg),
    {
        match msg {
            Message::Data(d) => {
                let keep = (self.predicate)(&d.value);
                if keep {
                    Some(Message::Data(d))
                } else {
                    None
                }
            },
            other => Some(other),
        }
    }
}

/// Operator observing data messages without modifying them: the inspector is
/// called on every data message, then the message passes unchanged.
pub struct InspectOp<F> {
    pub inspector: F,
}

impl<F> InspectOp<F> {
    /// Create the operator from its inspector.
    pub fn new(inspector: F) -> (r: Self)
        ensures
            r.inspector == inspector,
    {
        InspectOp { inspector }
    }

    /// Process one input message: it passes unchanged, data messages after
    /// the inspector saw them.
    pub fn apply<K, V, T>(&self, msg: Message<K, V, T>) -> (out: Message<K, V, T>) where
        F: Fn(&DataMessage<K, V, T>),

        requires
            forall|d: DataMessage<K, V, T>| #[trigger] self.inspector.requires((&d,)),
        ensures
            out == msg,
            msg is Data ==> self.inspector.ensures((&msg->Data_0,), ()),
    {
        match msg {
            Message::Data(d) => {
                (self.inspector)(&d);
                Message::Data(d)
            },
            other => other,
        }
    }
}

} // verus!
