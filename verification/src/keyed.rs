//! Keyed streams: re-keying messages locally and broadcasting them to every
//! worker of the job.
use vstd::prelude::*;

use crate::types::{is_key_message, DataMessage, Message, Timestamp, WorkerId};
use crate::worker_set::WorkerSet;

verus! {

/// The output of an operator which forwards a control message unchanged and
/// emits nothing for the keyed-state messages, whose key type changes.
pub open spec fn forwarded_control<K, V, T, K2, V2>(
    msg: Message<K, V, T>,
    out: Option<Message<K2, V2, T>>,
) -> bool {
    match msg {
        Message::Data(_) => true,
        Message::Epoch(e) => out == Some(Message::<K2, V2, T>::Epoch(e)),
        Message::Interrogate(_) => out is None,
        Message::Collect(_) => out is None,
        Message::Acquire(_) => out is None,
        Message::AbsBarrier(b) => out == Some(Message::<K2, V2, T>::AbsBarrier(b)),
        Message::Rescale(x) => out == Some(Message::<K2, V2, T>::Rescale(x)),
        Message::ReconfigComplete(x) => out == Some(Message::<K2, V2, T>::ReconfigComplete(x)),
    }
}

/// Forward a control message whose payload does not depend on the key type;
/// keyed-state messages may not cross key region boundaries and are dropped.
/// `msg` must not be a data message.
pub fn forward_control<K, V, T, K2, V2>(msg: Message<K, V, T>) -> (out: Option<Message<K2, V2, T>>)
    requires
        !(msg is Data),
    ensures
        forwarded_control(msg, out),
{
    match msg {
        Message::Data(_) => None,
        Message::Epoch(e) => Some(Message::Epoch(e)),
        Message::Interrogate(_) => None,
        Message::Collect(_) => None,
        Message::Acquire(_) => None,
        Message::AbsBarrier(b) => Some(Message::AbsBarrier(b)),
        Message::Rescale(x) => Some(Message::Rescale(x)),
        Message::ReconfigComplete(x) => Some(Message::ReconfigComplete(x)),
    }
}

/// One step of a local re-keying: a data message gets a key computed by
/// `key_func` and keeps value and timestamp; control messages are handled by
/// [forwarded_control].
pub open spec fn key_local_step<K, V, T, K2, F: Fn(&DataMessage<K, V, T>) -> K2>(
    key_func: F,
    msg: Message<K, V, T>,
    out: Option<Message<K2, V, T>>,
) -> bool {
    &&& msg is Data ==> (out matches Some(Message::Data(nd)) && key_func.ensures(
        (&msg->Data_0,),
        nd.key,
    ) && nd.value == msg->Data_0.value && nd.timestamp == msg->Data_0.timestamp)
    &&& forwarded_control(msg, out)
}

/// Operator turning a stream into a keyed stream **without** distributing
/// messages: every data message gets the key computed by `key_func`, value and
/// timestamp stay as they are.
///
/// Keyed state built on such a stream is not moved to other workers when the
/// local worker is shut down.
pub struct KeyLocalImpl<F> {
    pub key_func: F,
}

impl<F> KeyLocalImpl<F> {
    /// Create the operator from its key function.
    pub fn new(key_func: F) -> (r: Self)
        ensures
            r.key_func == key_func,
    {
        KeyLocalImpl { key_func }
    }

    /// Process one input message, producing at most one output message.
    pub fn apply<K, V, T, K2>(&self, msg: Message<K, V, T>) -> (out: Option<Message<K2, V, T>>) where
        F: Fn(&DataMessage<K, V, T>) -> K2,

        requires
            forall|d: DataMessage<K, V, T>| #[trigger] self.key_func.requires((&d,)),
        ensures
            key_local_step(self.key_func, msg, out),
    {
        match msg {
            Message::Data(d) => {
                let new_key = (self.key_func)(&d);
                Some(Message::Data(DataMessage { key: new_key, value: d.value, timestamp: d.timestamp }))
            },
            other => forward_control(other),
        }
    }
}

/// Keys of the messages a broadcast emits, in order.
pub open spec fn message_keys<K, V, T>(out: Seq<Message<K, V, T>>) -> Seq<K>
    recommends
        forall|i: int| 0 <= i < out.len() ==> out[i] is Data,
{
    out.map_values(|m: Message<K, V, T>| m->Data_0.key)
}

/// One step of a worker broadcast from worker set `workers` to `next`:
/// - data: one copy per worker, in worker order, keyed by the worker
/// - rescale: the worker set shrinks to the workers which remain, the
///   message is forwarded
/// - reconfiguration complete: the worker set becomes the new worker set,
///   the message is forwarded
/// - interrogate, collect, acquire: dropped
/// - barriers and epochs: forwarded
pub open spec fn broadcast_step<K: Clone, V: Clone, T>(
    workers: Seq<WorkerId>,
    msg: Message<K, V, T>,
    out: Seq<Message<WorkerId, (K, V), T>>,
    next: Seq<WorkerId>,
) -> bool {
    &&& msg is Data ==> {
        &&& next == workers
        &&& out.len() == workers.len()
        &&& forall|i: int|
            0 <= i < out.len() ==> (#[trigger] out[i] matches Message::Data(nd) && nd.key == workers[i]
                && cloned(msg->Data_0.key, nd.value.0) && cloned(msg->Data_0.value, nd.value.1)
                && nd.timestamp == msg->Data_0.timestamp)
    }
    &&& msg is Rescale ==> {
        &&& next == workers.filter(|w: WorkerId| msg->Rescale_0.all_workers@.contains(w))
        &&& out == seq![Message::<WorkerId, (K, V), T>::Rescale(msg->Rescale_0)]
    }
    &&& msg is ReconfigComplete ==> {
        &&& next == msg->ReconfigComplete_0.new_workers@
        &&& out == seq![Message::<WorkerId, (K, V), T>::ReconfigComplete(msg->ReconfigComplete_0)]
    }
    &&& msg is Epoch ==> next == workers && out == seq![Message::<WorkerId, (K, V), T>::Epoch(msg->Epoch_0)]
    &&& msg is AbsBarrier ==> next == workers && out == seq![
        Message::<WorkerId, (K, V), T>::AbsBarrier(msg->AbsBarrier_0),
    ]
    &&& is_key_message(msg) ==> next == workers && out.len() == 0
}

/// First half of a worker broadcast: every data message is copied once per
/// worker of the job, keyed by the worker id and carrying the original key and
/// value as its value. A following distribution step delivers each copy to the
/// worker named by its key.
pub struct KeyByWid {
    workers: WorkerSet,
}

impl View for KeyByWid {
    type V = Seq<WorkerId>;

    closed spec fn view(&self) -> Seq<WorkerId> {
        self.workers@
    }
}

impl KeyByWid {
    /// Create the operator for the workers the job starts with.
    pub fn new(workers: WorkerSet) -> (r: Self)
        ensures
            r@ == workers@,
    {
        KeyByWid { workers }
    }

    /// The workers each data message is currently broadcast to.
    pub fn workers(&self) -> (r: &WorkerSet)
        ensures
            r@ == self@,
    {
        &self.workers
    }

    /// Process one input message.
    ///
    /// - data: one copy per worker, in worker order
    /// - rescale: the worker set shrinks to the workers which remain, the
    ///   message is forwarded
    /// - reconfiguration complete: the worker set becomes the new worker set,
    ///   the message is forwarded
    /// - interrogate, collect, acquire: dropped
    /// - barriers and epochs: forwarded
    pub fn apply<K: Clone, V: Clone, T: Timestamp>(&mut self, msg: Message<K, V, T>) -> (out: Vec<
        Message<WorkerId, (K, V), T>,
    >)
        ensures
            broadcast_step(old(self)@, msg, out@, final(self)@),
    {
        let mut out: Vec<Message<WorkerId, (K, V), T>> = Vec::new();
        match msg {
            Message::Data(d) => {
                let n = self.workers.len();
                let mut i: usize = 0;
                while i < n
                    invariant
                        n == self@.len(),
                        i <= n,
                        out.len() == i,
                        forall|j: int|
                            0 <= j < i ==> (#[trigger] out@[j] matches Message::Data(nd) && nd.key
                                == self@[j] && cloned(d.key, nd.value.0) && cloned(
                                d.value,
                                nd.value.1,
                            ) && nd.timestamp == d.timestamp),
                    decreases n - i,
                {
                    let wid = self.workers.get(i).unwrap();
                    let value = (d.key.clone(), d.value.clone());
                    out.push(Message::Data(DataMessage::new(wid, value, d.timestamp)));
                    i = i + 1;
                }
            },
            Message::Rescale(x) => {
                self.workers = self.workers.intersection(&x.all_workers);
                out.push(Message::Rescale(x));
            },
            Message::ReconfigComplete(x) => {
                self.workers = x.new_workers.duplicate();
                out.push(Message::ReconfigComplete(x));
            },
            Message::Epoch(e) => {
                out.push(Message::Epoch(e));
            },
            Message::AbsBarrier(b) => {
                out.push(Message::AbsBarrier(b));
            },
            Message::Interrogate(_) => {},
            Message::Collect(_) => {},
            Message::Acquire(_) => {},
        }
        out
    }
}

/// Second half of a worker broadcast: after distribution, restore the original
/// key and value of each copy.
pub struct KeyByWidUnwrapper;

impl KeyByWidUnwrapper {
    /// Process one input message, producing at most one output message.
    pub fn apply<K, V, T>(&self, msg: Message<WorkerId, (K, V), T>) -> (out: Option<Message<K, V, T>>)
        ensures
            msg is Data ==> out == Some(
                Message::Data(
                    DataMessage {
                        key: msg->Data_0.value.0,
                        value: msg->Data_0.value.1,
                        timestamp: msg->Data_0.timestamp,
                    },
                ),
            ),
            forwarded_control(msg, out),
    {
        match msg {
            Message::Data(d) => {
                let (key, value) = d.value;
                Some(Message::Data(DataMessage::new(key, value, d.timestamp)))
            },
            other => forward_control(other),
        }
    }
}

/// Partitioner of a worker broadcast: a copy keyed by a worker id goes to
/// exactly that worker.
pub fn wid_select(wid: &WorkerId, _workers: &WorkerSet) -> (r: WorkerId)
    ensures
        r == *wid,
{
    *wid
}

/// Law: a broadcast reaches every current worker exactly once, in worker
/// order. The keys of the copies emitted for one data message are the worker
/// set itself, which lists no worker twice.
pub proof fn broadcast_reaches_each_worker_once<K, V, T>(
    workers: Seq<WorkerId>,
    out: Seq<Message<WorkerId, (K, V), T>>,
)
    requires
        workers.no_duplicates(),
        out.len() == workers.len(),
        forall|i: int| 0 <= i < out.len() ==> (#[trigger] out[i] matches Message::Data(nd) && nd.key == workers[i]),
    ensures
        message_keys(out) == workers,
        message_keys(out).no_duplicates(),
        message_keys(out).to_set() == workers.to_set(),
{
    assert(message_keys(out) =~= workers) by {
        assert forall|i: int| 0 <= i < workers.len() implies message_keys(out)[i] == workers[i] by {
            assert(out[i] is Data);
        }
    }
}

/// Law: after a rescale the broadcast reaches only workers which are part of
/// the new worker set and were reached before.
pub proof fn rescale_only_shrinks_broadcast(before: Seq<WorkerId>, all_workers: Seq<WorkerId>, w: WorkerId)
    requires
        before.filter(|x: WorkerId| all_workers.contains(x)).contains(w),
    ensures
        before.contains(w),
        all_workers.contains(w),
{
    before.lemma_filter_contains_rev(|x: WorkerId| all_workers.contains(x), w);
    let after = before.filter(|x: WorkerId| all_workers.contains(x));
    let i = choose|i: int| 0 <= i < after.len() && after[i] == w;
    before.lemma_filter_pred(|x: WorkerId| all_workers.contains(x), i);
}

} // verus!
