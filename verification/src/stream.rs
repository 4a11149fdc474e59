//! Streams of messages and the operators which can be appended to them.
//!
//! A [Stream] holds the messages flowing along one edge of a dataflow, in
//! order. Appending an operator runs the operator's logic on every message of
//! the stream and yields the stream of its outputs.
use vstd::prelude::*;

use crate::keyed::{broadcast_step, forwarded_control, key_local_step, KeyByWid, KeyLocalImpl};
use crate::operators::{FilterOp, InspectOp};
use crate::sinks::{StatelessSink, StatelessSinkImpl};
use crate::sources::{FromEnumeratedIteratorSource, FromIteratorSource};
use crate::time::{
    advances, assign_step, epoch_step, AssignTimestampsOp, EpochGenerator, OnTimeLate,
};
use crate::types::{
    Acquire, Collect, DataMessage, Interrogate, Message, NoKey, OnceTime, ReconfigComplete,
    RescaleMessage, Timestamp, WorkerId,
};
use crate::worker_set::WorkerSet;

verus! {

/// The outputs of an operator emitting at most one message per input, in
/// order.
pub open spec fn flatten_options<M>(outs: Seq<Option<M>>) -> Seq<M>
    decreases outs.len(),
{
    if outs.len() == 0 {
        Seq::empty()
    } else {
        let rest = flatten_options(outs.drop_last());
        match outs.last() {
            Some(m) => rest.push(m),
            None => rest,
        }
    }
}

/// The outputs of an operator emitting any number of messages per input, in
/// order.
pub open spec fn flatten_seqs<M>(outs: Seq<Seq<M>>) -> Seq<M>
    decreases outs.len(),
{
    if outs.len() == 0 {
        Seq::empty()
    } else {
        flatten_seqs(outs.drop_last()) + outs.last()
    }
}

/// Move the elements of `v` into a new vector in reverse order.
fn reversed<M>(v: Vec<M>) -> (r: Vec<M>)
    ensures
        r@ == v@.reverse(),
{
    let mut v = v;
    let mut r: Vec<M> = Vec::new();
    let ghost orig = v@;
    while v.len() > 0
        invariant
            v@ == orig.take(v@.len() as int),
            r@ == orig.skip(v@.len() as int).reverse(),
            v@.len() <= orig.len(),
        decreases v.len(),
    {
        let x = v.pop().unwrap();
        r.push(x);
        proof {
            assert(orig.skip(v@.len() as int).reverse() =~= orig.skip((v@.len() + 1) as int).reverse().push(x));
            assert(v@ =~= orig.take(v@.len() as int));
        }
    }
    proof {
        assert(orig.skip(0) =~= orig);
    }
    r
}

/// Popping from a reversed sequence yields its elements front to back.
proof fn lemma_pop_reversed<M>(rev: Seq<M>, input: Seq<M>, i: int)
    requires
        0 <= i < input.len(),
        rev.reverse() == input.skip(i),
    ensures
        rev.len() > 0,
        rev.last() == input[i],
        rev.drop_last().reverse() == input.skip(i + 1),
{
    assert(input.skip(i).len() > 0);
    if rev.len() == 0 {
        assert(rev.reverse().len() == 0);
    }
    assert(rev.reverse().len() == rev.len());
    assert(rev.reverse()[0] == rev[rev.len() - 1]);
    assert(input.skip(i)[0] == input[i]);
    let d = rev.drop_last();
    if d.len() == 0 {
        assert(d.reverse() =~= input.skip(i + 1));
    } else {
        assert forall|k: int| 0 <= k < d.len() implies d.reverse()[k] == input.skip(i + 1)[k] by {
            assert(rev.reverse()[k + 1] == rev[rev.len() - 1 - (k + 1)]);
            assert(input.skip(i)[k + 1] == input[i + 1 + k]);
        }
        assert(d.reverse() =~= input.skip(i + 1));
    }
}

/// A copy of a control message, for an output with another value type. The
/// keys of keyed-state messages are cloned.
pub open spec fn control_copy<K: Clone, V, V2, T>(a: Message<K, V, T>, b: Message<K, V2, T>) -> bool {
    match a {
        Message::Data(_) => false,
        Message::Epoch(e) => b == Message::<K, V2, T>::Epoch(e),
        Message::AbsBarrier(x) => b == Message::<K, V2, T>::AbsBarrier(x),
        Message::Rescale(x) => b matches Message::Rescale(y) && y.all_workers@ == x.all_workers@,
        Message::ReconfigComplete(x) => b matches Message::ReconfigComplete(y) && y.new_workers@
            == x.new_workers@,
        Message::Collect(x) => b matches Message::Collect(y) && cloned(x.key, y.key),
        Message::Acquire(x) => b matches Message::Acquire(y) && cloned(x.key, y.key),
        Message::Interrogate(x) => b matches Message::Interrogate(y) && y.keys@.len()
            == x.keys@.len() && forall|i: int|
            0 <= i < x.keys@.len() ==> cloned(#[trigger] x.keys@[i], y.keys@[i]),
    }
}

/// Copy a control message for another output.
pub fn duplicate_control<K: Clone, V, V2, T: Timestamp>(m: &Message<K, V, T>) -> (r: Message<K, V2, T>)
    requires
        !(*m is Data),
    ensures
        control_copy(*m, r),
{
    match m {
        Message::Data(_) => Message::Epoch(T::max_value()),
        Message::Epoch(e) => Message::Epoch(*e),
        Message::AbsBarrier(b) => Message::AbsBarrier(*b),
        Message::Rescale(x) => Message::Rescale(RescaleMessage { all_workers: x.all_workers.duplicate() }),
        Message::ReconfigComplete(x) => Message::ReconfigComplete(
            ReconfigComplete { new_workers: x.new_workers.duplicate() },
        ),
        Message::Collect(x) => Message::Collect(Collect { key: x.key.clone() }),
        Message::Acquire(x) => Message::Acquire(Acquire { key: x.key.clone() }),
        Message::Interrogate(x) => Message::Interrogate(Interrogate { keys: x.keys.clone() }),
    }
}

/// One step of the on-time/late split: on-time data goes to the first
/// output, late data to the second, each with its value unwrapped; control
/// messages go to both.
pub open spec fn split_step<K: Clone, V, T>(
    msg: Message<K, OnTimeLate<V>, T>,
    on_time: Option<Message<K, V, T>>,
    late: Option<Message<K, V, T>>,
) -> bool {
    match msg {
        Message::Data(d) => match d.value {
            OnTimeLate::OnTime(v) => on_time == Some(
                Message::Data(DataMessage { key: d.key, value: v, timestamp: d.timestamp }),
            ) && late is None,
            OnTimeLate::Late(v) => late == Some(
                Message::Data(DataMessage { key: d.key, value: v, timestamp: d.timestamp }),
            ) && on_time is None,
        },
        _ => (on_time matches Some(a) && control_copy(msg, a)) && (late matches Some(b)
            && control_copy(msg, b)),
    }
}

/// The messages of an edge of a dataflow, in order.
pub struct Stream<K, V, T> {
    messages: Vec<Message<K, V, T>>,
}

impl<K, V, T> View for Stream<K, V, T> {
    type V = Seq<Message<K, V, T>>;

    closed spec fn view(&self) -> Seq<Message<K, V, T>> {
        self.messages@
    }
}

impl<K, V, T> Stream<K, V, T> {
    /// A stream without messages.
    pub fn new() -> (r: Self)
        ensures
            r@ == Seq::<Message<K, V, T>>::empty(),
    {
        Stream { messages: Vec::new() }
    }

    /// The stream of the given messages.
    pub fn from_messages(messages: Vec<Message<K, V, T>>) -> (r: Self)
        ensures
            r@ == messages@,
    {
        Stream { messages }
    }

    /// The messages of the stream.
    pub fn into_messages(self) -> (r: Vec<Message<K, V, T>>)
        ensures
            r@ == self@,
    {
        self.messages
    }

    /// The messages of the stream.
    pub fn messages(&self) -> (r: &Vec<Message<K, V, T>>)
        ensures
            r@ == self@,
    {
        &self.messages
    }

    /// Append a message.
    pub fn push(&mut self, m: Message<K, V, T>)
        ensures
            final(self)@ == old(self)@.push(m),
    {
        self.messages.push(m);
    }
}

impl<V> Stream<NoKey, V, usize> {
    /// The stream of a source reading `source`'s records: each record
    /// timestamped with its index, then the `MAX` epoch.
    pub fn from_enumerated_iterator(_name: &str, source: FromEnumeratedIteratorSource<V>) -> (r: Self)
        requires
            source.pending() is Some,
        ensures
            r@.len() == source.pending()->0.len() + 1,
            forall|i: int|
                0 <= i < source.pending()->0.len() ==> #[trigger] r@[i] == Message::Data(
                    DataMessage { key: NoKey, value: source.pending()->0[i], timestamp: i as usize },
                ),
            r@.last() == Message::<NoKey, V, usize>::Epoch(usize::MAX),
    {
        let mut source = source;
        let ghost items = source.pending()->0;
        let parts = source.discover();
        let mut partition = source.open(&parts[0], None);
        let mut out: Vec<Message<NoKey, V, usize>> = Vec::new();
        while partition.has_next()
            invariant
                partition.wf(),
                !partition.finished(),
                partition@ == items.skip(out@.len() as int),
                partition.next_index() == out@.len(),
                out@.len() <= items.len(),
                forall|i: int|
                    0 <= i < out@.len() ==> #[trigger] out@[i] == Message::Data(
                        DataMessage { key: NoKey, value: items[i], timestamp: i as usize },
                    ),
            decreases partition@.len(),
        {
            let ghost before = partition@;
            let m = partition.poll_message().unwrap();
            proof {
                assert(before[0] == items[out@.len() as int]);
                assert(partition@ =~= items.skip((out@.len() + 1) as int));
            }
            out.push(m);
        }
        proof {
            assert(out@.len() == items.len()) by {
                assert(items.skip(out@.len() as int).len() == 0);
            }
        }
        let last = partition.poll_message().unwrap();
        out.push(last);
        Stream { messages: out }
    }
}

impl<V> Stream<NoKey, V, OnceTime> {
    /// The stream of an untimed source reading `source`'s records: each
    /// record at `OnceTime(false)`, then the `MAX` epoch.
    pub fn from_iterator(_name: &str, source: FromIteratorSource<V>) -> (r: Self)
        requires
            source.pending() is Some,
        ensures
            r@.len() == source.pending()->0.len() + 1,
            forall|i: int|
                0 <= i < source.pending()->0.len() ==> #[trigger] r@[i] == Message::Data(
                    DataMessage { key: NoKey, value: source.pending()->0[i], timestamp: OnceTime(false) },
                ),
            r@.last() == Message::<NoKey, V, OnceTime>::Epoch(OnceTime(true)),
    {
        let mut source = source;
        let ghost items = source.pending()->0;
        let parts = source.discover();
        let mut partition = source.open(&parts[0], None);
        let mut out: Vec<Message<NoKey, V, OnceTime>> = Vec::new();
        while partition.has_next()
            invariant
                !partition.finished(),
                partition@ == items.skip(out@.len() as int),
                out@.len() <= items.len(),
                forall|i: int|
                    0 <= i < out@.len() ==> #[trigger] out@[i] == Message::Data(
                        DataMessage { key: NoKey, value: items[i], timestamp: OnceTime(false) },
                    ),
            decreases partition@.len(),
        {
            let ghost before = partition@;
            let m = partition.poll_message().unwrap();
            proof {
                assert(before[0] == items[out@.len() as int]);
                assert(partition@ =~= items.skip((out@.len() + 1) as int));
            }
            out.push(m);
        }
        proof {
            assert(out@.len() == items.len()) by {
                assert(items.skip(out@.len() as int).len() == 0);
            }
        }
        let last = partition.poll_message().unwrap();
        out.push(last);
        Stream { messages: out }
    }
}

/// Create a keyed stream **without** distributing messages.
pub trait KeyLocal<K, V, T>: Sized {
    /// Turn a stream into a keyed stream and **do not** distribute messages
    /// across workers. State keyed by such a stream is not moved to another
    /// worker when the local worker is shut down.
    fn key_local<K2, F: Fn(&DataMessage<K, V, T>) -> K2>(self, name: &str, key_func: F) -> Stream<K2, V, T>
        requires
            forall|d: DataMessage<K, V, T>| #[trigger] key_func.requires((&d,)),
    ;
}

impl<K, V, T> KeyLocal<K, V, T> for Stream<K, V, T> {
    fn key_local<K2, F: Fn(&DataMessage<K, V, T>) -> K2>(self, _name: &str, key_func: F) -> (r: Stream<K2, V, T>)
        ensures
            exists|outs: Seq<Option<Message<K2, V, T>>>|
                {
                    &&& outs.len() == self@.len()
                    &&& forall|i: int| 0 <= i < outs.len() ==> key_local_step(key_func, self@[i], #[trigger] outs[i])
                    &&& r@ == flatten_options(outs)
                },
    {
        let ghost input = self@;
        let op = KeyLocalImpl::new(key_func);
        let mut rev = reversed(self.messages);
        let mut out: Vec<Message<K2, V, T>> = Vec::new();
        let ghost mut outs: Seq<Option<Message<K2, V, T>>> = Seq::empty();
        let n = rev.len();
        let mut i: usize = 0;
        while i < n
            invariant
                n == input.len(),
                i <= n,
                op.key_func == key_func,
                forall|d: DataMessage<K, V, T>| #[trigger] key_func.requires((&d,)),
                rev@.reverse() == input.skip(i as int),
                outs.len() == i,
                forall|j: int| 0 <= j < i ==> key_local_step(key_func, input[j], #[trigger] outs[j]),
                out@ == flatten_options(outs),
            decreases n - i,
        {
            proof {
                lemma_pop_reversed(rev@, input, i as int);
            }
            let m = rev.pop().unwrap();
            let o = op.apply(m);
            let ghost og = o;
            match o {
                Some(x) => out.push(x),
                None => {},
            }
            proof {
                let outs2 = outs.push(og);
                assert(outs2.drop_last() == outs);
                assert forall|j: int| 0 <= j < i + 1 implies key_local_step(key_func, input[j], #[trigger] outs2[j]) by {
                    if j < i {
                        assert(outs2[j] == outs[j]);
                    }
                }
                outs = outs2;
            }
            i = i + 1;
        }
        Stream { messages: out }
    }
}

/// Broadcast every message to every worker.
pub trait WorkerBroadcast<K, V, T>: Sized {
    /// Copy every data message once for each worker of the job, keyed by the
    /// worker id, with the original key and value as value. The worker set
    /// follows rescales of the job.
    fn worker_broadcast(self, name: &str, workers: WorkerSet) -> Stream<WorkerId, (K, V), T>;
}

impl<K: Clone, V: Clone, T: Timestamp> WorkerBroadcast<K, V, T> for Stream<K, V, T> {
    fn worker_broadcast(self, _name: &str, workers: WorkerSet) -> (r: Stream<WorkerId, (K, V), T>)
        ensures
            exists|outs: Seq<Seq<Message<WorkerId, (K, V), T>>>, sets: Seq<Seq<WorkerId>>|
                {
                    &&& outs.len() == self@.len()
                    &&& sets.len() == self@.len() + 1
                    &&& sets[0] == workers@
                    &&& forall|i: int|
                        0 <= i < outs.len() ==> broadcast_step(sets[i], self@[i], #[trigger] outs[i], sets[i + 1])
                    &&& r@ == flatten_seqs(outs)
                },
    {
        let ghost input = self@;
        let mut op = KeyByWid::new(workers);
        let mut rev = reversed(self.messages);
        let mut out: Vec<Message<WorkerId, (K, V), T>> = Vec::new();
        let ghost mut outs: Seq<Seq<Message<WorkerId, (K, V), T>>> = Seq::empty();
        let ghost mut sets: Seq<Seq<WorkerId>> = seq![op@];
        let n = rev.len();
        let mut i: usize = 0;
        while i < n
            invariant
                n == input.len(),
                i <= n,
                rev@.reverse() == input.skip(i as int),
                outs.len() == i,
                sets.len() == i + 1,
                sets[0] == workers@,
                sets[i as int] == op@,
                forall|j: int| 0 <= j < i ==> broadcast_step(sets[j], input[j], #[trigger] outs[j], sets[j + 1]),
                out@ == flatten_seqs(outs),
            decreases n - i,
        {
            proof {
                lemma_pop_reversed(rev@, input, i as int);
            }
            let m = rev.pop().unwrap();
            let ghost before = op@;
            let mut o = op.apply(m);
            let ghost og = o@;
            out.append(&mut o);
            proof {
                let outs2 = outs.push(og);
                let sets2 = sets.push(op@);
                assert(outs2.drop_last() == outs);
                assert forall|j: int| 0 <= j < i + 1 implies broadcast_step(sets2[j], input[j], #[trigger] outs2[j], sets2[j + 1]) by {
                    if j < i {
                        assert(outs2[j] == outs[j]);
                        assert(sets2[j] == sets[j] && sets2[j + 1] == sets[j + 1]);
                    }
                }
                outs = outs2;
                sets = sets2;
            }
            i = i + 1;
        }
        Stream { messages: out }
    }
}

/// Assign timestamps to stream messages.
pub trait AssignTimestamps<K, V, T: Timestamp>: Sized {
    /// Assign a new timestamp to every message. Epochs arriving at this
    /// operator are dropped, except the `MAX` epoch. New epochs must be
    /// generated for the result with [NeedsEpochs::generate_epochs].
    fn assign_timestamps<T2: Timestamp, F: Fn(&DataMessage<K, V, T>) -> T2>(self, name: &str, assigner: F) -> NeedsEpochs<K, V, T2>
        requires
            forall|d: DataMessage<K, V, T>| #[trigger] assigner.requires((&d,)),
    ;
}

/// A stream with new timestamps which still needs epochs.
pub struct NeedsEpochs<K, V, T>(pub Stream<K, V, T>);

impl<K, V, T: Timestamp> AssignTimestamps<K, V, T> for Stream<K, V, T> {
    fn assign_timestamps<T2: Timestamp, F: Fn(&DataMessage<K, V, T>) -> T2>(self, _name: &str, assigner: F) -> (r: NeedsEpochs<K, V, T2>)
        ensures
            exists|outs: Seq<Option<Message<K, V, T2>>>|
                {
                    &&& outs.len() == self@.len()
                    &&& forall|i: int| 0 <= i < outs.len() ==> assign_step(assigner, self@[i], #[trigger] outs[i])
                    &&& r.0@ == flatten_options(outs)
                },
    {
        let ghost input = self@;
        let op = AssignTimestampsOp::new(assigner);
        let mut rev = reversed(self.messages);
        let mut out: Vec<Message<K, V, T2>> = Vec::new();
        let ghost mut outs: Seq<Option<Message<K, V, T2>>> = Seq::empty();
        let n = rev.len();
        let mut i: usize = 0;
        while i < n
            invariant
                n == input.len(),
                i <= n,
                op.assigner == assigner,
                forall|d: DataMessage<K, V, T>| #[trigger] assigner.requires((&d,)),
                rev@.reverse() == input.skip(i as int),
                outs.len() == i,
                forall|j: int| 0 <= j < i ==> assign_step(assigner, input[j], #[trigger] outs[j]),
                out@ == flatten_options(outs),
            decreases n - i,
        {
            proof {
                lemma_pop_reversed(rev@, input, i as int);
            }
            let m = rev.pop().unwrap();
            let o = op.apply(m);
            let ghost og = o;
            match o {
                Some(x) => out.push(x),
                None => {},
            }
            proof {
                let outs2 = outs.push(og);
                assert(outs2.drop_last() == outs);
                assert forall|j: int| 0 <= j < i + 1 implies assign_step(assigner, input[j], #[trigger] outs2[j]) by {
                    if j < i {
                        assert(outs2[j] == outs[j]);
                    }
                }
                outs = outs2;
            }
            i = i + 1;
        }
        NeedsEpochs(Stream { messages: out })
    }
}

/// The mixed stream an epoch generator emits for an input stream, starting
/// without any epoch.
pub open spec fn generated_by<K, V, T: Timestamp, F: Fn(&DataMessage<K, V, T>, &Option<T>) -> Option<T>>(
    generator: F,
    input: Seq<Message<K, V, T>>,
    mixed: Seq<Message<K, OnTimeLate<V>, T>>,
) -> bool {
    exists|outs: Seq<Seq<Message<K, OnTimeLate<V>, T>>>, epochs: Seq<Option<T>>|
        {
            &&& outs.len() == input.len()
            &&& epochs.len() == input.len() + 1
            &&& epochs[0] == None::<T>
            &&& forall|i: int|
                0 <= i < outs.len() ==> epoch_step(generator, epochs[i], input[i], #[trigger] outs[i], epochs[i + 1])
            &&& mixed == flatten_seqs(outs)
        }
}

/// The two streams a split of a mixed stream yields.
pub open spec fn split_into<K: Clone, V, T>(
    mixed: Seq<Message<K, OnTimeLate<V>, T>>,
    on_time: Seq<Message<K, V, T>>,
    late: Seq<Message<K, V, T>>,
) -> bool {
    exists|ons: Seq<Option<Message<K, V, T>>>, lates: Seq<Option<Message<K, V, T>>>|
        {
            &&& ons.len() == mixed.len()
            &&& lates.len() == mixed.len()
            &&& forall|i: int| 0 <= i < mixed.len() ==> split_step(mixed[i], #[trigger] ons[i], lates[i])
            &&& on_time == flatten_options(ons)
            &&& late == flatten_options(lates)
        }
}

/// Run an epoch generator over a whole stream.
fn generate_all<K, V, T: Timestamp, F: Fn(&DataMessage<K, V, T>, &Option<T>) -> Option<T>>(
    input: Stream<K, V, T>,
    generator: F,
) -> (r: Stream<K, OnTimeLate<V>, T>)
    requires
        forall|d: DataMessage<K, V, T>, e: Option<T>| #[trigger] generator.requires((&d, &e)),
    ensures
        generated_by(generator, input@, r@),
{
    let ghost inp = input@;
    let mut op = EpochGenerator::new(generator);
    let mut rev = reversed(input.messages);
    let mut out: Vec<Message<K, OnTimeLate<V>, T>> = Vec::new();
    let ghost mut outs: Seq<Seq<Message<K, OnTimeLate<V>, T>>> = Seq::empty();
    let ghost mut epochs: Seq<Option<T>> = seq![None::<T>];
    let n = rev.len();
    let mut i: usize = 0;
    while i < n
        invariant
            n == inp.len(),
            i <= n,
            op.generator() == generator,
            forall|d: DataMessage<K, V, T>, e: Option<T>| #[trigger] generator.requires((&d, &e)),
            rev@.reverse() == inp.skip(i as int),
            outs.len() == i,
            epochs.len() == i + 1,
            epochs[0] == None::<T>,
            epochs[i as int] == op.last_epoch(),
            forall|j: int| 0 <= j < i ==> epoch_step(generator, epochs[j], inp[j], #[trigger] outs[j], epochs[j + 1]),
            out@ == flatten_seqs(outs),
        decreases n - i,
    {
        proof {
            lemma_pop_reversed(rev@, inp, i as int);
        }
        let m = rev.pop().unwrap();
        let mut o = op.apply(m);
        let ghost og = o@;
        out.append(&mut o);
        proof {
            let outs2 = outs.push(og);
            let epochs2 = epochs.push(op.last_epoch());
            assert(outs2.drop_last() == outs);
            assert forall|j: int| 0 <= j < i + 1 implies epoch_step(generator, epochs2[j], inp[j], #[trigger] outs2[j], epochs2[j + 1]) by {
                if j < i {
                    assert(outs2[j] == outs[j]);
                    assert(epochs2[j] == epochs[j] && epochs2[j + 1] == epochs[j + 1]);
                }
            }
            outs = outs2;
            epochs = epochs2;
        }
        i = i + 1;
    }
    assert(generated_by(generator, inp, out@)) by {
        assert(outs.len() == inp.len());
    }
    Stream { messages: out }
}

/// Split a mixed stream into its on-time and late parts.
pub fn split_on_time_late<K: Clone, V, T: Timestamp>(mixed: Stream<K, OnTimeLate<V>, T>) -> (r: (Stream<K, V, T>, Stream<K, V, T>))
    ensures
        split_into(mixed@, r.0@, r.1@),
{
    let ghost inp = mixed@;
    let mut rev = reversed(mixed.messages);
    let mut on_time: Vec<Message<K, V, T>> = Vec::new();
    let mut late: Vec<Message<K, V, T>> = Vec::new();
    let ghost mut ons: Seq<Option<Message<K, V, T>>> = Seq::empty();
    let ghost mut lates: Seq<Option<Message<K, V, T>>> = Seq::empty();
    let n = rev.len();
    let mut i: usize = 0;
    while i < n
        invariant
            n == inp.len(),
            i <= n,
            rev@.reverse() == inp.skip(i as int),
            ons.len() == i,
            lates.len() == i,
            forall|j: int| 0 <= j < i ==> split_step(inp[j], #[trigger] ons[j], lates[j]),
            on_time@ == flatten_options(ons),
            late@ == flatten_options(lates),
        decreases n - i,
    {
        proof {
            lemma_pop_reversed(rev@, inp, i as int);
        }
        let m = rev.pop().unwrap();
        let ghost mg = m;
        let (a, b): (Option<Message<K, V, T>>, Option<Message<K, V, T>>) = match m {
            Message::Data(d) => match d.value {
                OnTimeLate::OnTime(v) => (Some(Message::Data(DataMessage::new(d.key, v, d.timestamp))), None),
                OnTimeLate::Late(v) => (None, Some(Message::Data(DataMessage::new(d.key, v, d.timestamp)))),
            },
            other => {
                let a = duplicate_control(&other);
                let b = duplicate_control(&other);
                (Some(a), Some(b))
            },
        };
        let ghost ag = a;
        let ghost bg = b;
        match a {
            Some(x) => on_time.push(x),
            None => {},
        }
        match b {
            Some(x) => late.push(x),
            None => {},
        }
        proof {
            let ons2 = ons.push(ag);
            let lates2 = lates.push(bg);
            assert(ons2.drop_last() == ons);
            assert(lates2.drop_last() == lates);
            assert(split_step(mg, ag, bg));
            assert forall|j: int| 0 <= j < i + 1 implies split_step(inp[j], #[trigger] ons2[j], lates2[j]) by {
                if j < i {
                    assert(ons2[j] == ons[j] && lates2[j] == lates[j]);
                }
            }
            ons = ons2;
            lates = lates2;
        }
        i = i + 1;
    }
    assert(split_into(inp, on_time@, late@));
    (Stream { messages: on_time }, Stream { messages: late })
}

impl<K: Clone, V, T: Timestamp> NeedsEpochs<K, V, T> {
    /// Generate epochs for the stream and split it into the messages on time
    /// and the late messages. See [EpochGenerator] for how epochs are issued.
    pub fn generate_epochs<F: Fn(&DataMessage<K, V, T>, &Option<T>) -> Option<T>>(self, _name: &str, generator: F) -> (r: (Stream<K, V, T>, Stream<K, V, T>))
        requires
            forall|d: DataMessage<K, V, T>, e: Option<T>| #[trigger] generator.requires((&d, &e)),
        ensures
            exists|mixed: Seq<Message<K, OnTimeLate<V>, T>>|
                generated_by(generator, self.0@, mixed) && #[trigger] split_into(mixed, r.0@, r.1@),
    {
        let mixed = generate_all(self.0, generator);
        let r = split_on_time_late(mixed);
        r
    }
}

impl<K: Clone, V, T: Timestamp> Stream<K, V, T> {
    /// Generate epochs for a stream which already has timestamps and split
    /// it into the messages on time and the late messages.
    pub fn generate_epochs<F: Fn(&DataMessage<K, V, T>, &Option<T>) -> Option<T>>(self, name: &str, generator: F) -> (r: (Stream<K, V, T>, Stream<K, V, T>))
        requires
            forall|d: DataMessage<K, V, T>, e: Option<T>| #[trigger] generator.requires((&d, &e)),
        ensures
            exists|mixed: Seq<Message<K, OnTimeLate<V>, T>>|
                generated_by(generator, self@, mixed) && #[trigger] split_into(mixed, r.0@, r.1@),
    {
        NeedsEpochs(self).generate_epochs(name, generator)
    }
}

/// Filter messages in a stream.
pub trait Filter<K, V, T>: Sized {
    /// Retain the data messages whose value satisfies the predicate; every
    /// other message passes.
    fn filter<F: Fn(&V) -> bool>(self, name: &str, predicate: F) -> Stream<K, V, T>
        requires
            forall|v: V| #[trigger] predicate.requires((&v,)),
    ;
}

/// One step of a filter.
pub open spec fn filter_step<K, V, T, F: Fn(&V) -> bool>(predicate: F, msg: Message<K, V, T>, out: Option<Message<K, V, T>>) -> bool {
    &&& msg is Data ==> exists|keep: bool|
        {
            &&& #[trigger] predicate.ensures((&msg->Data_0.value,), keep)
            &&& keep ==> out == Some(msg)
            &&& !keep ==> out is None
        }
    &&& !(msg is Data) ==> out == Some(msg)
}

impl<K, V, T> Filter<K, V, T> for Stream<K, V, T> {
    fn filter<F: Fn(&V) -> bool>(self, _name: &str, predicate: F) -> (r: Stream<K, V, T>)
        ensures
            exists|outs: Seq<Option<Message<K, V, T>>>|
                {
                    &&& outs.len() == self@.len()
                    &&& forall|i: int| 0 <= i < outs.len() ==> filter_step(predicate, self@[i], #[trigger] outs[i])
                    &&& r@ == flatten_options(outs)
                },
    {
        let ghost input = self@;
        let op = FilterOp::new(predicate);
        let mut rev = reversed(self.messages);
        let mut out: Vec<Message<K, V, T>> = Vec::new();
        let ghost mut outs: Seq<Option<Message<K, V, T>>> = Seq::empty();
        let n = rev.len();
        let mut i: usize = 0;
        while i < n
            invariant
                n == input.len(),
                i <= n,
                op.predicate == predicate,
                forall|v: V| #[trigger] predicate.requires((&v,)),
                rev@.reverse() == input.skip(i as int),
                outs.len() == i,
                forall|j: int| 0 <= j < i ==> filter_step(predicate, input[j], #[trigger] outs[j]),
                out@ == flatten_options(outs),
            decreases n - i,
        {
            proof {
                lemma_pop_reversed(rev@, input, i as int);
            }
            let m = rev.pop().unwrap();
            let o = op.apply(m);
            let ghost og = o;
            match o {
                Some(x) => out.push(x),
                None => {},
            }
            proof {
                let outs2 = outs.push(og);
                assert(outs2.drop_last() == outs);
                assert forall|j: int| 0 <= j < i + 1 implies filter_step(predicate, input[j], #[trigger] outs2[j]) by {
                    if j < i {
                        assert(outs2[j] == outs[j]);
                    }
                }
                outs = outs2;
            }
            i = i + 1;
        }
        Stream { messages: out }
    }
}

/// Inspect messages in a stream without modifying them.
pub trait Inspect<K, V, T>: Sized {
    /// Call the inspector on every data message, for example to debug or to
    /// record metrics; the stream passes unchanged.
    fn inspect<F: Fn(&DataMessage<K, V, T>)>(self, name: &str, inspector: F) -> Stream<K, V, T>
        requires
            forall|d: DataMessage<K, V, T>| #[trigger] inspector.requires((&d,)),
    ;
}

impl<K, V, T> Inspect<K, V, T> for Stream<K, V, T> {
    fn inspect<F: Fn(&DataMessage<K, V, T>)>(self, _name: &str, inspector: F) -> (r: Stream<K, V, T>)
        ensures
            r@ == self@,
            forall|j: int|
                0 <= j < self@.len() && (#[trigger] self@[j]) is Data ==> inspector.ensures(
                    (&self@[j]->Data_0,),
                    (),
                ),
    {
        let ghost input = self@;
        let op = InspectOp::new(inspector);
        let mut rev = reversed(self.messages);
        let mut out: Vec<Message<K, V, T>> = Vec::new();
        let n = rev.len();
        let mut i: usize = 0;
        while i < n
            invariant
                n == input.len(),
                i <= n,
                op.inspector == inspector,
                forall|d: DataMessage<K, V, T>| #[trigger] inspector.requires((&d,)),
                rev@.reverse() == input.skip(i as int),
                out@ == input.take(i as int),
                forall|j: int|
                    0 <= j < i && (#[trigger] input[j]) is Data ==> inspector.ensures(
                        (&input[j]->Data_0,),
                        (),
                    ),
            decreases n - i,
        {
            proof {
                lemma_pop_reversed(rev@, input, i as int);
            }
            let m = rev.pop().unwrap();
            let o = op.apply(m);
            out.push(o);
            proof {
                assert(input.take(i + 1) == input.take(i as int).push(input[i as int]));
            }
            i = i + 1;
        }
        proof {
            assert(input.take(n as int) == input);
        }
        Stream { messages: out }
    }
}

/// `b` is a copy of `a` for another output: data is cloned field by field,
/// control messages are copied as [control_copy] says.
pub open spec fn message_copy<K: Clone, V: Clone, T>(a: Message<K, V, T>, b: Message<K, V, T>) -> bool {
    match a {
        Message::Data(d) => b matches Message::Data(e) && cloned(d.key, e.key) && cloned(d.value, e.value)
            && e.timestamp == d.timestamp,
        _ => control_copy(a, b),
    }
}

/// Copy a message for another output.
pub fn copy_message<K: Clone, V: Clone, T: Timestamp>(m: &Message<K, V, T>) -> (r: Message<K, V, T>)
    ensures
        message_copy(*m, r),
{
    match m {
        Message::Data(d) => Message::Data(
            DataMessage { key: d.key.clone(), value: d.value.clone(), timestamp: d.timestamp },
        ),
        _ => duplicate_control(m),
    }
}

/// Create multiple streams by cloning the messages of a single stream.
pub trait Cloned<K, V, T>: Sized {
    /// Create `outputs` new streams by copying all messages into every
    /// created stream.
    fn cloned(self, name: &str, outputs: usize) -> Vec<Stream<K, V, T>>;
}

impl<K: Clone, V: Clone, T: Timestamp> Stream<K, V, T> {
    /// A message-by-message copy of this stream.
    fn copy_all(&self) -> (r: Stream<K, V, T>)
        ensures
            r@.len() == self@.len(),
            forall|j: int| 0 <= j < self@.len() ==> message_copy(self@[j], #[trigger] r@[j]),
    {
        let mut out: Vec<Message<K, V, T>> = Vec::new();
        let n = self.messages.len();
        let mut j: usize = 0;
        while j < n
            invariant
                n == self@.len(),
                j <= n,
                out@.len() == j,
                forall|a: int| 0 <= a < j ==> message_copy(self@[a], #[trigger] out@[a]),
            decreases n - j,
        {
            let c = copy_message(&self.messages[j]);
            out.push(c);
            j = j + 1;
        }
        Stream { messages: out }
    }
}

impl<K: Clone, V: Clone, T: Timestamp> Cloned<K, V, T> for Stream<K, V, T> {
    fn cloned(self, _name: &str, outputs: usize) -> (r: Vec<Stream<K, V, T>>)
        ensures
            r.len() == outputs,
            forall|i: int| 0 <= i < outputs ==> (#[trigger] r@[i])@.len() == self@.len(),
            forall|i: int, j: int|
                0 <= i < outputs && 0 <= j < self@.len() ==> message_copy(self@[j], #[trigger] r@[i]@[j]),
    {
        let mut out: Vec<Stream<K, V, T>> = Vec::new();
        let mut i: usize = 0;
        while i < outputs
            invariant
                i <= outputs,
                out@.len() == i,
                forall|a: int| 0 <= a < i ==> (#[trigger] out@[a])@.len() == self@.len(),
                forall|a: int, j: int|
                    0 <= a < i && 0 <= j < self@.len() ==> message_copy(self@[j], #[trigger] out@[a]@[j]),
            decreases outputs - i,
        {
            let c = self.copy_all();
            out.push(c);
            i = i + 1;
        }
        out
    }
}

/// Output messages from a stream somewhere.
pub trait Sink<K, V, T, S>: Sized {
    /// Sink all messages of this stream into the given sink, until the end
    /// of the stream. Returns the sink.
    fn sink(self, name: &str, sink: StatelessSink<S>) -> StatelessSink<S>;
}

impl<K, V, T: Timestamp, S: StatelessSinkImpl<K, V, T>> Sink<K, V, T, S> for Stream<K, V, T> {
    fn sink(self, _name: &str, sink: StatelessSink<S>) -> (r: StatelessSink<S>)
        ensures
            r.sink_impl.records() == sink.sink_impl.records() + sunk_records(self@),
            (forall|i: int| 0 <= i < self@.len() ==> !reaches_sink(self@, i)) ==> r == sink,
    {
        let ghost input = self@;
        let ghost sink0 = sink;
        let mut sink = sink;
        let mut rev = reversed(self.messages);
        let mut closed = false;
        let ghost mut k: int = 0;
        while rev.len() > 0 && !closed
            invariant
                0 <= k <= input.len(),
                rev@.reverse() == input.skip(k),
                !closed ==> forall|j: int| 0 <= j < k ==> !is_end(#[trigger] input[j]),
                closed ==> ended(input.take(k)),
                (forall|i: int| 0 <= i < k ==> !reaches_sink(input, i)) ==> sink == sink0,
                sink.sink_impl.records() == sink0.sink_impl.records() + sunk_records(input.take(k)),
            decreases rev.len(),
        {
            proof {
                if k == input.len() {
                    assert(input.skip(k).len() == 0);
                    assert(rev@.reverse().len() == rev@.len());
                }
                lemma_pop_reversed(rev@, input, k);
            }
            let m = rev.pop().unwrap();
            let ghost before = sink;
            closed = sink.apply(m);
            proof {
                if forall|i: int| 0 <= i < k + 1 ==> !reaches_sink(input, i) {
                    assert(!reaches_sink(input, k));
                    assert(!(input[k] is Data));
                    assert(sink == before);
                }
                let p = input.take(k + 1);
                assert(p.drop_last() =~= input.take(k));
                assert(p.last() == input[k]);
                assert(!ended(input.take(k))) by {
                    if ended(input.take(k)) {
                        let j = choose|j: int| 0 <= j < input.take(k).len() && is_end(input.take(k)[j]);
                        assert(is_end(input[j]));
                    }
                }
                if closed {
                    assert(is_end(p[k]));
                }
                assert(before.sink_impl.records() + sunk_records(input.take(k)).push(input[k]->Data_0)
                    =~= (before.sink_impl.records() + sunk_records(input.take(k))).push(input[k]->Data_0));
                k = k + 1;
            }
        }
        proof {
            if closed {
                lemma_sunk_records_after_end(input, k, input.len() as int);
            } else {
                assert(rev@.reverse().len() == rev@.len());
                assert(input.skip(k).len() == 0);
            }
            assert(input.take(input.len() as int) =~= input);
        }
        sink
    }
}

/// Whether a stream has ended: it holds the `MAX` epoch.
pub open spec fn ended<K, V, T: Timestamp>(s: Seq<Message<K, V, T>>) -> bool {
    exists|j: int| 0 <= j < s.len() && is_end(#[trigger] s[j])
}

/// The records a sink receives from a stream: its data messages before the
/// first `MAX` epoch, in order.
pub open spec fn sunk_records<K, V, T: Timestamp>(s: Seq<Message<K, V, T>>) -> Seq<DataMessage<K, V, T>>
    decreases s.len(),
{
    if s.len() == 0 {
        Seq::empty()
    } else if ended(s.drop_last()) {
        sunk_records(s.drop_last())
    } else {
        match s.last() {
            Message::Data(d) => sunk_records(s.drop_last()).push(d),
            _ => sunk_records(s.drop_last()),
        }
    }
}

/// Once a prefix of a stream has ended, no later message reaches a sink.
proof fn lemma_sunk_records_after_end<K, V, T: Timestamp>(s: Seq<Message<K, V, T>>, k: int, m: int)
    requires
        0 <= k <= m <= s.len(),
        ended(s.take(k)),
    ensures
        sunk_records(s.take(m)) == sunk_records(s.take(k)),
    decreases m - k,
{
    if m > k {
        lemma_sunk_records_after_end(s, k, m - 1);
        assert(s.take(m).drop_last() =~= s.take(m - 1));
        let j = choose|j: int| 0 <= j < s.take(k).len() && is_end(#[trigger] s.take(k)[j]);
        assert(s.take(m - 1)[j] == s.take(k)[j]);
        assert(ended(s.take(m - 1)));
    }
}

/// Whether a message ends its stream: the `MAX` epoch.
pub open spec fn is_end<K, V, T: Timestamp>(m: Message<K, V, T>) -> bool {
    m is Epoch && m->Epoch_0.rank() == T::max_rank()
}

/// Whether the `i`-th message of a stream reaches a sink: a data message not
/// preceded by the end of the stream.
pub open spec fn reaches_sink<K, V, T: Timestamp>(s: Seq<Message<K, V, T>>, i: int) -> bool {
    &&& s[i] is Data
    &&& forall|j: int| 0 <= j < i ==> !is_end(#[trigger] s[j])
}

/// The epochs among a sequence of messages, in order.
pub open spec fn epochs_of<K, V, T>(s: Seq<Message<K, V, T>>) -> Seq<T>
    decreases s.len(),
{
    if s.len() == 0 {
        Seq::empty()
    } else {
        let rest = epochs_of(s.drop_last());
        match s.last() {
            Message::Epoch(e) => rest.push(e),
            _ => rest,
        }
    }
}

/// Timestamps which strictly increase.
pub open spec fn strictly_increasing<T: Timestamp>(s: Seq<T>) -> bool {
    forall|i: int, j: int| 0 <= i < j < s.len() ==> (#[trigger] s[i]).rank() < (#[trigger] s[j]).rank()
}

/// The epochs of two streams one after the other.
pub proof fn lemma_epochs_of_concat<K, V, T>(a: Seq<Message<K, V, T>>, b: Seq<Message<K, V, T>>)
    ensures
        epochs_of(a + b) == epochs_of(a) + epochs_of(b),
    decreases b.len(),
{
    if b.len() == 0 {
        assert(a + b == a);
        assert(epochs_of(b) == Seq::<T>::empty());
        assert(epochs_of(a) + epochs_of(b) == epochs_of(a));
    } else {
        lemma_epochs_of_concat(a, b.drop_last());
        assert((a + b).drop_last() == a + b.drop_last());
        assert((a + b).last() == b.last());
        match b.last() {
            Message::Epoch(e) => {
                assert(epochs_of(a) + epochs_of(b.drop_last()).push(e) == (epochs_of(a) + epochs_of(b.drop_last())).push(e));
            },
            _ => {},
        }
    }
}

/// The epochs one step of an epoch generator emits: the newly issued epoch,
/// if any.
proof fn lemma_step_epochs<K, V, T: Timestamp, F: Fn(&DataMessage<K, V, T>, &Option<T>) -> Option<T>>(
    generator: F,
    last: Option<T>,
    msg: Message<K, V, T>,
    out: Seq<Message<K, OnTimeLate<V>, T>>,
    next: Option<T>,
)
    requires
        epoch_step(generator, last, msg, out, next),
    ensures
        next == last ==> epochs_of(out) == Seq::<T>::empty(),
        next != last ==> next is Some && advances(last, next->0) && epochs_of(out) == seq![next->0],
{
    assert(Seq::<Message<K, OnTimeLate<V>, T>>::empty().len() == 0);
    match msg {
        Message::Data(d) => {
            let p = choose|p: Option<T>|
                #![trigger generator.ensures((&d, &last), p)]
                generator.ensures((&d, &last), p) && if p is Some && advances(last, p->0) {
                    out.len() == 2 && out[1] == Message::<K, OnTimeLate<V>, T>::Epoch(p->0) && next == p
                } else {
                    out.len() == 1 && next == last
                };
            assert(out.take(1).drop_last() =~= Seq::<Message<K, OnTimeLate<V>, T>>::empty());
            assert(out.take(1).len() == 1);
            assert(out.take(1).last() == out[0]);
            assert(out[0] is Data);
            assert(epochs_of(Seq::<Message<K, OnTimeLate<V>, T>>::empty()) == Seq::<T>::empty());
            assert(epochs_of(out.take(1)) == Seq::<T>::empty());
            if out.len() == 2 {
                assert(out.drop_last() =~= out.take(1));
                if let Some(q) = last {
                    assert(q.rank() < p->0.rank());
                }
            } else {
                assert(out =~= out.take(1));
            }
        },
        Message::Epoch(e) => {
            assert(epochs_of(Seq::<Message<K, OnTimeLate<V>, T>>::empty()) == Seq::<T>::empty());
            if advances(last, e) {
                assert(out.drop_last() =~= Seq::<Message<K, OnTimeLate<V>, T>>::empty());
                if let Some(q) = last {
                    assert(q.rank() < e.rank());
                }
            }
        },
        _ => {
            assert(out.drop_last() =~= Seq::<Message<K, OnTimeLate<V>, T>>::empty());
            assert(epochs_of(Seq::<Message<K, OnTimeLate<V>, T>>::empty()) == Seq::<T>::empty());
        },
    }
}

/// The epochs issued for the first `k` messages of a stream strictly
/// increase, and the last of them is the generator's last epoch.
proof fn lemma_generated_prefix<K, V, T: Timestamp, F: Fn(&DataMessage<K, V, T>, &Option<T>) -> Option<T>>(
    generator: F,
    input: Seq<Message<K, V, T>>,
    outs: Seq<Seq<Message<K, OnTimeLate<V>, T>>>,
    epochs: Seq<Option<T>>,
    k: int,
)
    requires
        0 <= k <= outs.len(),
        outs.len() == input.len(),
        epochs.len() == input.len() + 1,
        epochs[0] == None::<T>,
        forall|i: int|
            0 <= i < outs.len() ==> epoch_step(generator, epochs[i], input[i], #[trigger] outs[i], epochs[i + 1]),
    ensures
        strictly_increasing(epochs_of(flatten_seqs(outs.take(k)))),
        epochs_of(flatten_seqs(outs.take(k))).len() == 0 ==> epochs[k] is None,
        epochs_of(flatten_seqs(outs.take(k))).len() > 0 ==> epochs[k] == Some(
            epochs_of(flatten_seqs(outs.take(k))).last(),
        ),
    decreases k,
{
    if k == 0 {
        assert(outs.take(0) =~= Seq::<Seq<Message<K, OnTimeLate<V>, T>>>::empty());
        assert(flatten_seqs(outs.take(0)) == Seq::<Message<K, OnTimeLate<V>, T>>::empty());
        assert(epochs_of(Seq::<Message<K, OnTimeLate<V>, T>>::empty()) == Seq::<T>::empty());
    } else {
        let j = k - 1;
        lemma_generated_prefix(generator, input, outs, epochs, j);
        let f = flatten_seqs(outs.take(j));
        assert(outs.take(k).drop_last() == outs.take(j));
        assert(outs.take(k).last() == outs[j]);
        assert(flatten_seqs(outs.take(k)) == f + outs[j]);
        lemma_epochs_of_concat(f, outs[j]);
        lemma_step_epochs(generator, epochs[j], input[j], outs[j], epochs[k]);
        let e = epochs_of(f);
        if epochs[k] != epochs[j] {
            let p = epochs[k]->0;
            assert(e + seq![p] == e.push(p));
            let e2 = e.push(p);
            assert forall|a: int, b: int| 0 <= a < b < e2.len() implies (#[trigger] e2[a]).rank() < (#[trigger] e2[b]).rank() by {
                if b == e.len() {
                    assert(e2[b] == p);
                    assert(e2[a] == e[a]);
                    assert(e[a].rank() <= e.last().rank()) by {
                        if a < e.len() - 1 {
                            assert(e[a].rank() < e[e.len() - 1].rank());
                        }
                    }
                } else {
                    assert(e2[a] == e[a] && e2[b] == e[b]);
                }
            }
            assert(e2.last() == p);
        } else {
            assert(e + Seq::<T>::empty() == e);
        }
    }
}

/// Law: the epochs an epoch generator issues over a whole stream strictly
/// increase: time never goes backwards.
pub proof fn generated_epochs_strictly_increase<K, V, T: Timestamp, F: Fn(&DataMessage<K, V, T>, &Option<T>) -> Option<T>>(
    generator: F,
    input: Seq<Message<K, V, T>>,
    mixed: Seq<Message<K, OnTimeLate<V>, T>>,
)
    requires
        generated_by(generator, input, mixed),
    ensures
        strictly_increasing(epochs_of(mixed)),
{
    let (outs, epochs) = choose|outs: Seq<Seq<Message<K, OnTimeLate<V>, T>>>, epochs: Seq<Option<T>>|
        {
            &&& outs.len() == input.len()
            &&& epochs.len() == input.len() + 1
            &&& epochs[0] == None::<T>
            &&& forall|i: int|
                0 <= i < outs.len() ==> epoch_step(generator, epochs[i], input[i], #[trigger] outs[i], epochs[i + 1])
            &&& mixed == flatten_seqs(outs)
        };
    lemma_generated_prefix(generator, input, outs, epochs, outs.len() as int);
    assert(outs.take(outs.len() as int) == outs);
}

/// Law: a stream operator emitting at most one message per input emits no
/// more messages than it receives, and exactly as many where every step
/// emits one.
pub proof fn flatten_options_len<M>(outs: Seq<Option<M>>)
    ensures
        flatten_options(outs).len() <= outs.len(),
        (forall|i: int| 0 <= i < outs.len() ==> (#[trigger] outs[i]) is Some) ==> flatten_options(outs).len() == outs.len(),
    decreases outs.len(),
{
    if outs.len() > 0 {
        flatten_options_len(outs.drop_last());
        if forall|i: int| 0 <= i < outs.len() ==> (#[trigger] outs[i]) is Some {
            assert forall|i: int| 0 <= i < outs.drop_last().len() implies (#[trigger] outs.drop_last()[i]) is Some by {
                assert(outs.drop_last()[i] == outs[i]);
            }
            assert(outs[outs.len() - 1] is Some);
        }
    }
}
/// Every message an operator emitted comes from the output of one step.
pub proof fn lemma_flatten_options_member<M>(outs: Seq<Option<M>>, k: int)
    requires
        0 <= k < flatten_options(outs).len(),
    ensures
        exists|i: int| 0 <= i < outs.len() && outs[i] == Some(flatten_options(outs)[k]),
    decreases outs.len(),
{
    flatten_options_len(outs);
    let rest = flatten_options(outs.drop_last());
    flatten_options_len(outs.drop_last());
    match outs.last() {
        Some(m) => {
            if k == rest.len() {
                assert(outs[outs.len() - 1] == Some(m));
            } else {
                lemma_flatten_options_member(outs.drop_last(), k);
                let i = choose|i: int| 0 <= i < outs.drop_last().len() && outs.drop_last()[i] == Some(rest[k]);
                assert(outs[i] == outs.drop_last()[i]);
            }
        },
        None => {
            lemma_flatten_options_member(outs.drop_last(), k);
            let i = choose|i: int| 0 <= i < outs.drop_last().len() && outs.drop_last()[i] == Some(rest[k]);
            assert(outs[i] == outs.drop_last()[i]);
        },
    }
}

/// Law: keyed-state messages (interrogate, collect, acquire) never cross a
/// change of key: a re-keyed stream holds none of them.
pub proof fn key_local_drops_keyed_state_messages<K, V, T, K2, F: Fn(&DataMessage<K, V, T>) -> K2>(
    key_func: F,
    input: Seq<Message<K, V, T>>,
    outs: Seq<Option<Message<K2, V, T>>>,
    k: int,
)
    requires
        outs.len() == input.len(),
        forall|i: int| 0 <= i < outs.len() ==> key_local_step(key_func, input[i], #[trigger] outs[i]),
        0 <= k < flatten_options(outs).len(),
    ensures
        !crate::types::is_key_message(flatten_options(outs)[k]),
{
    lemma_flatten_options_member(outs, k);
    let i = choose|i: int| 0 <= i < outs.len() && outs[i] == Some(flatten_options(outs)[k]);
    assert(key_local_step(key_func, input[i], outs[i]));
}

/// Law: every data message a filter lets through is an input message whose
/// value the predicate accepted.
pub proof fn filter_passes_only_accepted<K, V, T, F: Fn(&V) -> bool>(
    predicate: F,
    input: Seq<Message<K, V, T>>,
    outs: Seq<Option<Message<K, V, T>>>,
    k: int,
)
    requires
        outs.len() == input.len(),
        forall|i: int| 0 <= i < outs.len() ==> filter_step(predicate, input[i], #[trigger] outs[i]),
        0 <= k < flatten_options(outs).len(),
        flatten_options(outs)[k] is Data,
    ensures
        input.contains(flatten_options(outs)[k]),
        predicate.ensures((&flatten_options(outs)[k]->Data_0.value,), true),
{
    lemma_flatten_options_member(outs, k);
    let i = choose|i: int| 0 <= i < outs.len() && outs[i] == Some(flatten_options(outs)[k]);
    assert(filter_step(predicate, input[i], outs[i]));
    assert(input[i] == flatten_options(outs)[k]);
}

} // verus!
