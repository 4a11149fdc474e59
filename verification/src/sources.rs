//! Convenience sources and their single partitions.
//!
//! All of these sources have exactly one partition, keyed by `NoKey`, and no
//! partition state. A partition is opened once; opening it hands over the
//! source's records.
use vstd::prelude::*;

use crate::types::{DataMessage, Message, NoKey, OnceTime, Timestamp};

verus! {

/// The message a source emits for one polled record, or the final `MAX`
/// epoch once the partition is exhausted.
pub open spec fn source_message<V, T: Timestamp>(polled: Option<(V, T)>, max: T) -> Message<NoKey, V, T> {
    match polled {
        Some((v, t)) => Message::Data(DataMessage { key: NoKey, value: v, timestamp: t }),
        None => Message::Epoch(max),
    }
}

/// Move the elements of `v` into a new vector in reverse order, so that
/// popping the result yields them front to back.
fn reversed<V>(v: Vec<V>) -> (r: Vec<V>)
    ensures
        r@ == v@.reverse(),
{
    let mut v = v;
    let mut r: Vec<V> = Vec::new();
    let ghost orig = v@;
    while v.len() > 0
        invariant
            v@ == orig.take(v@.len() as int),
            r@ == orig.skip(v@.len() as int).reverse(),
            v@.len() <= orig.len(),
        decreases v.len(),
    {
        let x = v.pop().unwrap();
        r.push(x);
        proof {
            assert(orig.skip(v@.len() as int).reverse() =~= orig.skip((v@.len() + 1) as int).reverse().push(x));
            assert(v@ =~= orig.take(v@.len() as int));
        }
    }
    proof {
        assert(orig.skip(0) =~= orig);
    }
    r
}

/// An untimed source reading the given records. Every record is timestamped
/// with `OnceTime(false)`; the stream finishes with `OnceTime(true)`.
pub struct FromIteratorSource<V> {
    items: Option<Vec<V>>,
}

impl<V> FromIteratorSource<V> {
    /// The records not yet handed to a partition, or `None` once the single
    /// partition was opened.
    pub closed spec fn pending(&self) -> Option<Seq<V>> {
        match self.items {
            Some(v) => Some(v@),
            None => None,
        }
    }

    /// A source emitting `items` in order.
    pub fn new(items: Vec<V>) -> (r: Self)
        ensures
            r.pending() == Some(items@),
    {
        FromIteratorSource { items: Some(items) }
    }

    /// The partitions of this source: exactly one.
    pub fn discover(&self) -> (r: Vec<NoKey>)
        ensures
            r@ == seq![NoKey],
    {
        vec![NoKey]
    }

    /// Open the single partition, handing it all records.
    pub fn open(&mut self, _key: &NoKey, _state: Option<()>) -> (p: FromIteratorPartition<V>)
        requires
            old(self).pending() is Some,
        ensures
            p@ == old(self).pending()->0,
            !p.finished(),
            final(self).pending() is None,
    {
        let items = self.items.take().unwrap();
        FromIteratorPartition { rev_items: reversed(items), finished: false }
    }
}

/// The single partition of a [FromIteratorSource].
pub struct FromIteratorPartition<V> {
    rev_items: Vec<V>,
    finished: bool,
}

impl<V> View for FromIteratorPartition<V> {
    type V = Seq<V>;

    /// The records still to be emitted, in order.
    closed spec fn view(&self) -> Seq<V> {
        self.rev_items@.reverse()
    }
}

impl<V> FromIteratorPartition<V> {
    /// Whether the final epoch has been emitted.
    pub closed spec fn finished(&self) -> bool {
        self.finished
    }

    /// Whether records remain to be emitted.
    pub fn has_next(&self) -> (b: bool)
        ensures
            b == (self@.len() > 0),
    {
        self.rev_items.len() > 0
    }

    /// Emit the next record, if any.
    pub fn poll(&mut self) -> (r: Option<(V, OnceTime)>)
        ensures
            old(self)@.len() > 0 ==> r == Some((old(self)@[0], OnceTime(false))) && final(self)@
                == old(self)@.drop_first(),
            old(self)@.len() == 0 ==> r is None && final(self)@ == old(self)@,
            final(self).finished() == old(self).finished(),
    {
        let ghost before = self.rev_items@;
        match self.rev_items.pop() {
            Some(v) => {
                proof {
                    assert(before.reverse()[0] == before.last());
                    assert(self.rev_items@.reverse() =~= before.reverse().drop_first());
                }
                Some((v, OnceTime::min_value()))
            },
            None => None,
        }
    }

    /// The next message of the stream: one data message per record, then a
    /// single `MAX` epoch, then nothing.
    pub fn poll_message(&mut self) -> (r: Option<Message<NoKey, V, OnceTime>>)
        requires
            !old(self).finished() || old(self)@.len() == 0,
        ensures
            old(self)@.len() > 0 ==> r == Some(
                source_message(Some((old(self)@[0], OnceTime(false))), OnceTime(true)),
            ) && final(self)@ == old(self)@.drop_first() && !final(self).finished(),
            old(self)@.len() == 0 && !old(self).finished() ==> r == Some(
                source_message(None::<(V, OnceTime)>, OnceTime(true)),
            ) && final(self).finished() && final(self)@ == old(self)@,
            old(self)@.len() == 0 && old(self).finished() ==> r is None && final(self)@ == old(
                self,
            )@ && final(self).finished(),
    {
        match self.poll() {
            Some((v, t)) => Some(Message::Data(DataMessage::new(NoKey, v, t))),
            None => {
                if self.finished {
                    None
                } else {
                    self.finished = true;
                    Some(Message::Epoch(OnceTime::max_value()))
                }
            },
        }
    }
}

/// A source reading the given records, timestamping each record with its
/// index.
pub struct FromEnumeratedIteratorSource<V> {
    items: Option<Vec<V>>,
}

impl<V> FromEnumeratedIteratorSource<V> {
    /// The records not yet handed to a partition, or `None` once the single
    /// partition was opened.
    pub closed spec fn pending(&self) -> Option<Seq<V>> {
        match self.items {
            Some(v) => Some(v@),
            None => None,
        }
    }

    /// A source emitting `items` in order.
    pub fn new(items: Vec<V>) -> (r: Self)
        ensures
            r.pending() == Some(items@),
    {
        FromEnumeratedIteratorSource { items: Some(items) }
    }

    /// The partitions of this source: exactly one.
    pub fn discover(&self) -> (r: Vec<NoKey>)
        ensures
            r@ == seq![NoKey],
    {
        vec![NoKey]
    }

    /// Open the single partition, handing it all records.
    pub fn open(&mut self, _key: &NoKey, _state: Option<()>) -> (p: FromEnumeratedIteratorPartition<V>)
        requires
            old(self).pending() is Some,
        ensures
            p@ == old(self).pending()->0,
            p.next_index() == 0,
            !p.finished(),
            p.wf(),
            final(self).pending() is None,
    {
        let items = self.items.take().unwrap();
        let rev_items = reversed(items);
        let _len = rev_items.len();
        FromEnumeratedIteratorPartition { rev_items, next: 0, finished: false }
    }
}

/// The single partition of a [FromEnumeratedIteratorSource].
pub struct FromEnumeratedIteratorPartition<V> {
    rev_items: Vec<V>,
    next: usize,
    finished: bool,
}

impl<V> View for FromEnumeratedIteratorPartition<V> {
    type V = Seq<V>;

    /// The records still to be emitted, in order.
    closed spec fn view(&self) -> Seq<V> {
        self.rev_items@.reverse()
    }
}

impl<V> FromEnumeratedIteratorPartition<V> {
    /// Index, and so timestamp, of the next record.
    pub closed spec fn next_index(&self) -> nat {
        self.next as nat
    }

    /// Whether the final epoch has been emitted.
    pub closed spec fn finished(&self) -> bool {
        self.finished
    }

    /// The index of every record fits a `usize`.
    pub closed spec fn wf(&self) -> bool {
        self.next + self.rev_items@.len() <= usize::MAX
    }

    /// Whether records remain to be emitted.
    pub fn has_next(&self) -> (b: bool)
        ensures
            b == (self@.len() > 0),
    {
        self.rev_items.len() > 0
    }

    /// Emit the next record with its index as timestamp, if any.
    pub fn poll(&mut self) -> (r: Option<(V, usize)>)
        requires
            old(self).wf(),
        ensures
            final(self).wf(),
            final(self).finished() == old(self).finished(),
            old(self)@.len() > 0 ==> r == Some((old(self)@[0], old(self).next_index() as usize))
                && final(self)@ == old(self)@.drop_first() && final(self).next_index() == old(
                self,
            ).next_index() + 1,
            old(self)@.len() == 0 ==> r is None && final(self)@ == old(self)@
                && final(self).next_index() == old(self).next_index(),
    {
        let ghost before = self.rev_items@;
        match self.rev_items.pop() {
            Some(v) => {
                let ts = self.next;
                self.next = self.next + 1;
                proof {
                    assert(before.reverse()[0] == before.last());
                    assert(self.rev_items@.reverse() =~= before.reverse().drop_first());
                }
                Some((v, ts))
            },
            None => None,
        }
    }

    /// The next message of the stream: one data message per record, then a
    /// single `MAX` epoch, then nothing.
    pub fn poll_message(&mut self) -> (r: Option<Message<NoKey, V, usize>>)
        requires
            old(self).wf(),
            !old(self).finished() || old(self)@.len() == 0,
        ensures
            final(self).wf(),
            old(self)@.len() > 0 ==> r == Some(
                source_message(
                    Some((old(self)@[0], old(self).next_index() as usize)),
                    usize::MAX,
                ),
            ) && final(self)@ == old(self)@.drop_first() && !final(self).finished()
                && final(self).next_index() == old(self).next_index() + 1,
            old(self)@.len() == 0 && !old(self).finished() ==> r == Some(
                source_message(None::<(V, usize)>, usize::MAX),
            ) && final(self).finished() && final(self)@ == old(self)@,
            old(self)@.len() == 0 && old(self).finished() ==> r is None && final(self)@ == old(
                self,
            )@ && final(self).finished(),
    {
        match self.poll() {
            Some((v, t)) => Some(Message::Data(DataMessage::new(NoKey, v, t))),
            None => {
                if self.finished {
                    None
                } else {
                    self.finished = true;
                    Some(Message::Epoch(usize::MAX))
                }
            },
        }
    }
}

/// A source built from a poll function returning `Option<(value, timestamp)>`.
pub struct PollSource<F> {
    f: Option<F>,
}

impl<F> PollSource<F> {
    /// The poll function not yet handed to a partition.
    pub closed spec fn pending(&self) -> Option<F> {
        self.f
    }

    /// A source polling `f`.
    pub fn new(f: F) -> (r: Self)
        ensures
            r.pending() == Some(f),
    {
        PollSource { f: Some(f) }
    }

    /// The partitions of this source: exactly one.
    pub fn discover(&self) -> (r: Vec<NoKey>)
        ensures
            r@ == seq![NoKey],
    {
        vec![NoKey]
    }

    /// Open the single partition, handing it the poll function.
    pub fn open(&mut self, _key: &NoKey, _state: Option<()>) -> (p: PollPartition<F>)
        requires
            old(self).pending() is Some,
        ensures
            p.f == old(self).pending()->0,
            final(self).pending() is None,
    {
        let f = self.f.take().unwrap();
        PollPartition { f }
    }
}

/// The single partition of a [PollSource].
pub struct PollPartition<F> {
    pub f: F,
}

impl<F> PollPartition<F> {
    /// Poll the function once.
    pub fn poll<V, T>(&self) -> (r: Option<(V, T)>) where F: Fn() -> Option<(V, T)>
        requires
            self.f.requires(()),
        ensures
            self.f.ensures((), r),
    {
        (self.f)()
    }
}

/// A source reading from an asynchronous stream of `(value, timestamp)`
/// pairs.
pub struct FromStreamSource<S> {
    stream: Option<S>,
}

impl<S> FromStreamSource<S> {
    /// The stream not yet handed to a partition.
    pub closed spec fn pending(&self) -> Option<S> {
        self.stream
    }

    /// A source reading `stream`.
    pub fn new(stream: S) -> (r: Self)
        ensures
            r.pending() == Some(stream),
    {
        FromStreamSource { stream: Some(stream) }
    }

    /// The partitions of this source: exactly one.
    pub fn discover(&self) -> (r: Vec<NoKey>)
        ensures
            r@ == seq![NoKey],
    {
        vec![NoKey]
    }

    /// Open the single partition, handing it the stream.
    pub fn open(&mut self, _key: &NoKey, _state: Option<()>) -> (p: FromStreamPartition<S>)
        requires
            old(self).pending() is Some,
        ensures
            p.stream == old(self).pending()->0,
            final(self).pending() is None,
    {
        let stream = self.stream.take().unwrap();
        FromStreamPartition { stream }
    }
}

/// The single partition of a [FromStreamSource]. Polling awaits the next
/// element of the stream.
pub struct FromStreamPartition<S> {
    pub stream: S,
}

} // verus!
