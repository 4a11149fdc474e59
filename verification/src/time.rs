//! Event time: assigning timestamps, generating epochs and separating late
//! messages from messages on time.
use vstd::prelude::*;

use crate::types::{DataMessage, Message, Timestamp};

verus! {

/// A value which arrived either before the last epoch (on time) or at or after
/// it (late).
#[derive(Debug, PartialEq, Eq, Structural)]
pub enum OnTimeLate<V> {
    OnTime(V),
    Late(V),
}

impl<V> OnTimeLate<V> {
    /// Whether the value is late.
    pub fn is_late(&self) -> (b: bool)
        ensures
            b == (*self is Late),
    {
        match self {
            OnTimeLate::OnTime(_) => false,
            OnTimeLate::Late(_) => true,
        }
    }

    /// The wrapped value, whether on time or late.
    pub fn into_inner(self) -> (v: V)
        ensures
            v == match self {
                OnTimeLate::OnTime(x) => x,
                OnTimeLate::Late(x) => x,
            },
    {
        match self {
            OnTimeLate::OnTime(x) => x,
            OnTimeLate::Late(x) => x,
        }
    }
}

/// A message is late when an epoch has already passed which is at or beyond
/// its timestamp.
pub open spec fn is_late<T: Timestamp>(prev_epoch: Option<T>, timestamp: T) -> bool {
    match prev_epoch {
        Some(prev) => !(prev.rank() < timestamp.rank()),
        None => false,
    }
}

/// Wrap the value of a data message as on time or late, depending on the last
/// epoch seen before it. Without any epoch a message can not be late.
pub fn classify_lateness<K, V, T: Timestamp>(prev_epoch: Option<T>, d: DataMessage<K, V, T>) -> (r:
    DataMessage<K, OnTimeLate<V>, T>)
    ensures
        r.key == d.key,
        r.timestamp == d.timestamp,
        r.value == if is_late(prev_epoch, d.timestamp) {
            OnTimeLate::Late(d.value)
        } else {
            OnTimeLate::OnTime(d.value)
        },
{
    let wrapped = match prev_epoch {
        Some(prev) => {
            if prev.before(&d.timestamp) {
                OnTimeLate::OnTime(d.value)
            } else {
                OnTimeLate::Late(d.value)
            }
        },
        None => OnTimeLate::OnTime(d.value),
    };
    DataMessage::new(d.key, wrapped, d.timestamp)
}

/// Routing of the on-time/late split: output 0 receives on-time messages,
/// output 1 late ones. Every message goes to exactly one output.
pub fn route_on_time_late<V>(value: &OnTimeLate<V>) -> (outs: [bool; 2])
    ensures
        outs[0] == (*value is OnTime),
        outs[1] == (*value is Late),
        outs[0] != outs[1],
{
    match value {
        OnTimeLate::OnTime(_) => [true, false],
        OnTimeLate::Late(_) => [false, true],
    }
}

/// The on-time half of a split stream: on-time data messages with their value
/// unwrapped, and every control message. Late data messages are dropped.
pub fn on_time_part<K, V, T>(msg: Message<K, OnTimeLate<V>, T>) -> (out: Option<Message<K, V, T>>)
    ensures
        match msg {
            Message::Data(d) => match d.value {
                OnTimeLate::OnTime(v) => out == Some(
                    Message::Data(DataMessage { key: d.key, value: v, timestamp: d.timestamp }),
                ),
                OnTimeLate::Late(_) => out is None,
            },
            Message::Epoch(x) => out == Some(Message::<K, V, T>::Epoch(x)),
            Message::Interrogate(x) => out == Some(Message::<K, V, T>::Interrogate(x)),
            Message::Collect(x) => out == Some(Message::<K, V, T>::Collect(x)),
            Message::Acquire(x) => out == Some(Message::<K, V, T>::Acquire(x)),
            Message::AbsBarrier(x) => out == Some(Message::<K, V, T>::AbsBarrier(x)),
            Message::Rescale(x) => out == Some(Message::<K, V, T>::Rescale(x)),
            Message::ReconfigComplete(x) => out == Some(Message::<K, V, T>::ReconfigComplete(x)),
        },
{
    match msg {
        Message::Data(d) => match d.value {
            OnTimeLate::OnTime(v) => Some(Message::Data(DataMessage::new(d.key, v, d.timestamp))),
            OnTimeLate::Late(_) => None,
        },
        Message::Epoch(x) => Some(Message::Epoch(x)),
        Message::Interrogate(x) => Some(Message::Interrogate(x)),
        Message::Collect(x) => Some(Message::Collect(x)),
        Message::Acquire(x) => Some(Message::Acquire(x)),
        Message::AbsBarrier(x) => Some(Message::AbsBarrier(x)),
        Message::Rescale(x) => Some(Message::Rescale(x)),
        Message::ReconfigComplete(x) => Some(Message::ReconfigComplete(x)),
    }
}

/// The late half of a split stream: late data messages with their value
/// unwrapped, and every control message. On-time data messages are dropped.
pub fn late_part<K, V, T>(msg: Message<K, OnTimeLate<V>, T>) -> (out: Option<Message<K, V, T>>)
    ensures
        match msg {
            Message::Data(d) => match d.value {
                OnTimeLate::Late(v) => out == Some(
                    Message::Data(DataMessage { key: d.key, value: v, timestamp: d.timestamp }),
                ),
                OnTimeLate::OnTime(_) => out is None,
            },
            Message::Epoch(x) => out == Some(Message::<K, V, T>::Epoch(x)),
            Message::Interrogate(x) => out == Some(Message::<K, V, T>::Interrogate(x)),
            Message::Collect(x) => out == Some(Message::<K, V, T>::Collect(x)),
            Message::Acquire(x) => out == Some(Message::<K, V, T>::Acquire(x)),
            Message::AbsBarrier(x) => out == Some(Message::<K, V, T>::AbsBarrier(x)),
            Message::Rescale(x) => out == Some(Message::<K, V, T>::Rescale(x)),
            Message::ReconfigComplete(x) => out == Some(Message::<K, V, T>::ReconfigComplete(x)),
        },
{
    match msg {
        Message::Data(d) => match d.value {
            OnTimeLate::Late(v) => Some(Message::Data(DataMessage::new(d.key, v, d.timestamp))),
            OnTimeLate::OnTime(_) => None,
        },
        Message::Epoch(x) => Some(Message::Epoch(x)),
        Message::Interrogate(x) => Some(Message::Interrogate(x)),
        Message::Collect(x) => Some(Message::Collect(x)),
        Message::Acquire(x) => Some(Message::Acquire(x)),
        Message::AbsBarrier(x) => Some(Message::AbsBarrier(x)),
        Message::Rescale(x) => Some(Message::Rescale(x)),
        Message::ReconfigComplete(x) => Some(Message::ReconfigComplete(x)),
    }
}

/// One step of timestamp assignment: data messages get the timestamp the
/// assigner gives them, epochs are dropped except `MAX`, which becomes the
/// `MAX` of the new timestamp type, and every other message is forwarded.
pub open spec fn assign_step<K, V, T: Timestamp, T2: Timestamp, F: Fn(&DataMessage<K, V, T>) -> T2>(
    assigner: F,
    msg: Message<K, V, T>,
    out: Option<Message<K, V, T2>>,
) -> bool {
    match msg {
        Message::Data(d) => out matches Some(Message::Data(nd)) && nd.key == d.key
            && nd.value == d.value && assigner.ensures((&d,), nd.timestamp),
        Message::Epoch(e) => if e.rank() == T::max_rank() {
            out matches Some(Message::Epoch(m)) && m.rank() == T2::max_rank()
        } else {
            out is None
        },
        Message::Interrogate(x) => out == Some(Message::<K, V, T2>::Interrogate(x)),
        Message::Collect(x) => out == Some(Message::<K, V, T2>::Collect(x)),
        Message::Acquire(x) => out == Some(Message::<K, V, T2>::Acquire(x)),
        Message::AbsBarrier(x) => out == Some(Message::<K, V, T2>::AbsBarrier(x)),
        Message::Rescale(x) => out == Some(Message::<K, V, T2>::Rescale(x)),
        Message::ReconfigComplete(x) => out == Some(
            Message::<K, V, T2>::ReconfigComplete(x),
        ),
    }
}

/// Operator assigning a new timestamp to every message.
///
/// Epochs arriving at this operator are dropped, except for the `MAX` epoch,
/// which is translated into the `MAX` of the new timestamp type.
pub struct AssignTimestampsOp<F> {
    pub assigner: F,
}

impl<F> AssignTimestampsOp<F> {
    /// Create the operator from its timestamp assigner.
    pub fn new(assigner: F) -> (r: Self)
        ensures
            r.assigner == assigner,
    {
        AssignTimestampsOp { assigner }
    }

    /// Process one input message, producing at most one output message.
    pub fn apply<K, V, T: Timestamp, T2: Timestamp>(&self, msg: Message<K, V, T>) -> (out: Option<
        Message<K, V, T2>,
    >) where F: Fn(&DataMessage<K, V, T>) -> T2
        requires
            forall|d: DataMessage<K, V, T>| #[trigger] self.assigner.requires((&d,)),
        ensures
            assign_step(self.assigner, msg, out),
    {
        match msg {
            Message::Data(d) => {
                let timestamp = (self.assigner)(&d);
                Some(Message::Data(DataMessage::new(d.key, d.value, timestamp)))
            },
            Message::Epoch(e) => {
                if e.is_max() {
                    Some(Message::Epoch(T2::max_value()))
                } else {
                    None
                }
            },
            Message::Interrogate(x) => Some(Message::Interrogate(x)),
            Message::Collect(x) => Some(Message::Collect(x)),
            Message::Acquire(x) => Some(Message::Acquire(x)),
            Message::AbsBarrier(x) => Some(Message::AbsBarrier(x)),
            Message::Rescale(x) => Some(Message::Rescale(x)),
            Message::ReconfigComplete(x) => Some(Message::ReconfigComplete(x)),
        }
    }
}

/// Whether `epoch` moves time forward past the last epoch `prev`.
pub open spec fn advances<T: Timestamp>(prev: Option<T>, epoch: T) -> bool {
    match prev {
        Some(p) => p.rank() < epoch.rank(),
        None => true,
    }
}

/// One step of epoch generation, from last issued epoch `last` to `next`:
/// a data message is emitted marked on time or late; then the generator's
/// proposal is issued as epoch if it moves time forward. An epoch from
/// upstream is forwarded if it moves time forward; every other message is
/// forwarded.
pub open spec fn epoch_step<K, V, T: Timestamp, F: Fn(&DataMessage<K, V, T>, &Option<T>) -> Option<T>>(
    generator: F,
    last: Option<T>,
    msg: Message<K, V, T>,
    out: Seq<Message<K, OnTimeLate<V>, T>>,
    next: Option<T>,
) -> bool {
    match msg {
        Message::Data(d) => {
            &&& out.len() >= 1
            &&& out[0] == Message::<K, OnTimeLate<V>, T>::Data(
                DataMessage {
                    key: d.key,
                    value: if is_late(last, d.timestamp) {
                        OnTimeLate::Late(d.value)
                    } else {
                        OnTimeLate::OnTime(d.value)
                    },
                    timestamp: d.timestamp,
                },
            )
            &&& exists|p: Option<T>|
                #![trigger generator.ensures((&d, &last), p)]
                generator.ensures((&d, &last), p) && if p is Some
                    && advances(last, p->0) {
                    out.len() == 2 && out[1] == Message::<K, OnTimeLate<V>, T>::Epoch(p->0)
                        && next == p
                } else {
                    out.len() == 1 && next == last
                }
        },
        Message::Epoch(e) => if advances(last, e) {
            out == seq![Message::<K, OnTimeLate<V>, T>::Epoch(e)] && next
                == Some(e)
        } else {
            out.len() == 0 && next == last
        },
        Message::Interrogate(x) => out == seq![Message::<K, OnTimeLate<V>, T>::Interrogate(x)]
            && next == last,
        Message::Collect(x) => out == seq![Message::<K, OnTimeLate<V>, T>::Collect(x)]
            && next == last,
        Message::Acquire(x) => out == seq![Message::<K, OnTimeLate<V>, T>::Acquire(x)]
            && next == last,
        Message::AbsBarrier(x) => out == seq![Message::<K, OnTimeLate<V>, T>::AbsBarrier(x)]
            && next == last,
        Message::Rescale(x) => out == seq![Message::<K, OnTimeLate<V>, T>::Rescale(x)]
            && next == last,
        Message::ReconfigComplete(x) => out == seq![
            Message::<K, OnTimeLate<V>, T>::ReconfigComplete(x),
        ] && next == last,
    }
}

/// Operator generating epochs from the data of a stream and marking every
/// data message as on time or late.
///
/// After each data message the generator function proposes an epoch from the
/// message and the last epoch. A proposal is issued only if it moves time
/// forward; `None` and proposals at or before the last epoch are ignored. The
/// epoch is issued after the message it was generated from. Epochs arriving
/// from upstream are forwarded when they move time forward, so the final
/// `MAX` epoch always passes.
pub struct EpochGenerator<F, T> {
    generator: F,
    last_epoch: Option<T>,
}

impl<F, T: Timestamp> EpochGenerator<F, T> {
    /// Create the operator; no epoch has been issued yet.
    pub fn new(generator: F) -> (r: Self)
        ensures
            r.generator() == generator,
            r.last_epoch() == None::<T>,
    {
        EpochGenerator { generator, last_epoch: None }
    }

    /// The generator function proposing epochs.
    pub closed spec fn generator(&self) -> F {
        self.generator
    }

    /// The last epoch issued by this operator.
    pub closed spec fn last_epoch(&self) -> Option<T> {
        self.last_epoch
    }

    /// The last epoch issued by this operator.
    pub fn get_last_epoch(&self) -> (r: Option<T>)
        ensures
            r == self.last_epoch(),
    {
        self.last_epoch
    }

    /// Process one input message, producing the messages to emit in order.
    pub fn apply<K, V>(&mut self, msg: Message<K, V, T>) -> (out: Vec<Message<K, OnTimeLate<V>, T>>) where
        F: Fn(&DataMessage<K, V, T>, &Option<T>) -> Option<T>,

        requires
            forall|d: DataMessage<K, V, T>, e: Option<T>| #[trigger]
                old(self).generator().requires((&d, &e)),
        ensures
            final(self).generator() == old(self).generator(),
            epoch_step(old(self).generator(), old(self).last_epoch(), msg, out@, final(self).last_epoch()),
    {
        let mut out: Vec<Message<K, OnTimeLate<V>, T>> = Vec::new();
        match msg {
            Message::Data(d) => {
                let ghost d0 = d;
                assert(self.generator().requires((&d, &self.last_epoch)));
                let proposed = (self.generator)(&d, &self.last_epoch);
                assert(old(self).generator().ensures((&d0, &old(self).last_epoch()), proposed));
                let wrapped = classify_lateness(self.last_epoch, d);
                out.push(Message::Data(wrapped));
                match proposed {
                    Some(e) => {
                        if self.moves_forward(&e) {
                            out.push(Message::Epoch(e));
                            self.last_epoch = Some(e);
                        }
                    },
                    None => {},
                }
            },
            Message::Epoch(e) => {
                if self.moves_forward(&e) {
                    out.push(Message::Epoch(e));
                    self.last_epoch = Some(e);
                }
            },
            Message::Interrogate(x) => out.push(Message::Interrogate(x)),
            Message::Collect(x) => out.push(Message::Collect(x)),
            Message::Acquire(x) => out.push(Message::Acquire(x)),
            Message::AbsBarrier(x) => out.push(Message::AbsBarrier(x)),
            Message::Rescale(x) => out.push(Message::Rescale(x)),
            Message::ReconfigComplete(x) => out.push(Message::ReconfigComplete(x)),
        }
        out
    }

    /// Whether `epoch` moves time forward past the last issued epoch.
    fn moves_forward(&self, epoch: &T) -> (b: bool)
        ensures
            b == advances(self.last_epoch(), *epoch),
    {
        match &self.last_epoch {
            Some(prev) => prev.before(epoch),
            None => true,
        }
    }
}

/// Law: epochs issued by a generator strictly increase. Whenever the
/// generator issues an epoch, it lies after the previously issued one and is
/// the new last epoch; a message is late exactly when its timestamp is not
/// after the last epoch issued before it.
pub proof fn issued_epochs_increase<T: Timestamp>(prev: Option<T>, issued: T, next: T)
    requires
        advances(prev, issued),
        advances(Some(issued), next),
    ensures
        advances(prev, next),
        prev is Some ==> prev->0.rank() < issued.rank() < next.rank(),
{
}

/// Law: the `MAX` epoch always passes an epoch generator, unless `MAX` was
/// already issued; once `MAX` is issued, every message that follows is late.
pub proof fn max_epoch_passes_and_ends_time<T: Timestamp>(prev: Option<T>, max: T, later: T)
    requires
        max.rank() == T::max_rank(),
        prev != Some(max),
    ensures
        advances(prev, max),
        is_late(Some(max), later),
{
    T::rank_at_most_max(later);
    if let Some(p) = prev {
        T::rank_at_most_max(p);
        if p.rank() == max.rank() {
            T::rank_injective(p, max);
        }
    }
}

} // verus!
