use malstrom::sinks::StatelessSink;
use malstrom::sources::{FromEnumeratedIteratorSource, FromIteratorSource, FromStreamSource, PollSource};
use malstrom::stream::{Sink, Stream};
use malstrom::types::{Message, NoKey, OnceTime};
use malstrom::vec_sink::VecSink;

/// The from_iterator source should emit the iterator values, untimed
#[test]
fn from_iterator_emits_values() {
    let in_data: Vec<i32> = (0..100).collect();
    let collector = VecSink::new();
    Stream::from_iterator("source", FromIteratorSource::new(in_data.clone()))
        .sink("sink", StatelessSink::new(collector.clone()));

    let c: Vec<i32> = collector.into_vec().into_iter().map(|x| x.value).collect();
    assert_eq!(c, (0..100).collect::<Vec<_>>())
}

/// from_enumerated_iterator timestamps values with their iterator index
#[test]
fn from_enumerated_iterator_emits_timestamped_messages() {
    let sink = VecSink::new();
    Stream::from_enumerated_iterator("source", FromEnumeratedIteratorSource::new((42..52).collect::<Vec<i32>>()))
        .sink("sink", StatelessSink::new(sink.clone()));

    let timestamps: Vec<usize> = sink.into_vec().into_iter().map(|x| x.timestamp).collect();
    let expected: Vec<usize> = (0..10).collect();
    assert_eq!(expected, timestamps);
}

/// after the final value a single MAX epoch should be emitted
#[test]
fn from_enumerated_iterator_emits_max_epoch() {
    let sink = VecSink::new();
    let stream = Stream::from_enumerated_iterator("source", FromEnumeratedIteratorSource::new((0..10).collect::<Vec<i32>>()));
    for msg in stream.messages() {
        if let Message::Epoch(x) = msg {
            sink.give(*x);
        }
    }
    let messages = sink.drain_vec(..).unwrap();
    let last = messages.last().unwrap();
    assert_eq!(*last, usize::MAX);
    assert_eq!(messages.len(), 1);
}

#[test]
fn iterator_partition_polls_values_at_min_time() {
    let mut source = FromIteratorSource::new(vec!["a", "b"]);
    assert_eq!(source.discover(), vec![NoKey]);
    let mut p = source.open(&NoKey, None);
    assert_eq!(p.poll(), Some(("a", OnceTime(false))));
    assert_eq!(p.poll(), Some(("b", OnceTime(false))));
    assert_eq!(p.poll(), None);
}

#[test]
fn enumerated_partition_counts_indices() {
    let mut source = FromEnumeratedIteratorSource::new(vec![10, 20, 30]);
    let mut p = source.open(&NoKey, None);
    assert_eq!(p.poll(), Some((10, 0)));
    assert_eq!(p.poll(), Some((20, 1)));
    assert_eq!(p.poll(), Some((30, 2)));
    assert_eq!(p.poll(), None);
    match p.poll_message() {
        Some(Message::Epoch(e)) => assert_eq!(e, usize::MAX),
        _ => panic!("expected the final epoch"),
    }
    assert!(p.poll_message().is_none());
}

#[test]
fn untimed_stream_ends_with_once_time_true() {
    let stream = Stream::from_iterator("source", FromIteratorSource::new(vec![1, 2, 3]));
    let msgs = stream.into_messages();
    assert_eq!(msgs.len(), 4);
    match &msgs[3] {
        Message::Epoch(e) => assert_eq!(*e, OnceTime(true)),
        _ => panic!("expected the final epoch"),
    }
}

#[test]
fn poll_source_polls_its_function() {
    let mut source = PollSource::new(|| Some((5u8, 7u64)));
    assert_eq!(source.discover(), vec![NoKey]);
    let p = source.open(&NoKey, None);
    assert_eq!(p.poll(), Some((5u8, 7u64)));
}

#[test]
fn stream_source_hands_over_its_stream() {
    let mut source = FromStreamSource::new(vec![(1, 2)]);
    assert_eq!(source.discover(), vec![NoKey]);
    let p = source.open(&NoKey, None);
    assert_eq!(p.stream, vec![(1, 2)]);
}
