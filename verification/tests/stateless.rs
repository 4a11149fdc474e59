use malstrom::operators::{FilterOp, Forward, InspectOp};
use malstrom::sinks::StatelessSink;
use malstrom::sources::FromIteratorSource;
use malstrom::stream::{Cloned, Filter, Inspect, Sink, Stream};
use malstrom::types::{Barrier, DataMessage, Message, NoKey};
use malstrom::vec_sink::{resolve_range, RangeEnd, VecSink};

#[test]
fn test_filter() {
    let collector = VecSink::new();
    Stream::from_iterator("source", FromIteratorSource::new((0..100).collect::<Vec<usize>>()))
        .filter("less-than-42", |x| *x < 42)
        .sink("sink", StatelessSink::new(collector.clone()));

    let collected: Vec<usize> = collector.into_vec().into_iter().map(|x| x.value).collect();
    let expected: Vec<usize> = (0..42).collect();
    assert_eq!(expected, collected)
}

#[test]
fn test_inspect() {
    let inspect_collector = VecSink::new();
    let output_collector = VecSink::new();

    let input = vec![
        "hello".to_string(),
        "world".to_string(),
        "foo".to_string(),
        "bar".to_string(),
    ];
    let expected = input.clone();

    let ic = inspect_collector.clone();
    Stream::from_iterator("source", FromIteratorSource::new(input.clone()))
        .inspect("inspect", move |x| ic.give(x.value.to_owned()))
        .sink("sink", StatelessSink::new(output_collector.clone()));
    assert_eq!(inspect_collector.drain_vec(..).unwrap(), expected);
    // check we still get unmodified output
    assert_eq!(
        output_collector.into_vec().into_iter().map(|x| x.value).collect::<Vec<_>>(),
        expected
    );
}

#[test]
fn filter_passes_control_messages() {
    let op = FilterOp::new(|_x: &i32| false);
    assert!(op.apply(Message::<NoKey, i32, u64>::Data(DataMessage::new(NoKey, 1, 0))).is_none());
    match op.apply(Message::<NoKey, i32, u64>::Epoch(5)) {
        Some(Message::Epoch(5)) => {}
        _ => panic!("epoch must pass"),
    }
    match op.apply(Message::<NoKey, i32, u64>::AbsBarrier(Barrier { version: 3 })) {
        Some(Message::AbsBarrier(b)) => assert_eq!(b.version, 3),
        _ => panic!("barrier must pass"),
    }
}

#[test]
fn inspect_sees_every_data_message() {
    let seen = VecSink::new();
    let s = seen.clone();
    let op = InspectOp::new(move |d: &DataMessage<NoKey, i32, u64>| s.give(d.value));
    op.apply(Message::Data(DataMessage::new(NoKey, 4, 1)));
    op.apply(Message::Epoch(2));
    op.apply(Message::Data(DataMessage::new(NoKey, 9, 3)));
    assert_eq!(seen.drain_vec(..).unwrap(), vec![4, 9]);
}

#[test]
fn forward_keeps_the_message() {
    match Forward::new().on_data(DataMessage::new(1u64, "x", 2u64)) {
        Message::Data(d) => {
            assert_eq!(d.key, 1);
            assert_eq!(d.value, "x");
            assert_eq!(d.timestamp, 2);
        }
        _ => panic!("data must stay data"),
    }
}

#[test]
fn test_vec_collector() {
    let col = VecSink::new();
    let col_a = col.clone();

    for i in 0..5 {
        col.give(i)
    }

    // the cloned one should return these values
    let collected = col_a.drain_vec(..).unwrap();
    assert_eq!(collected, (0..5).collect::<Vec<_>>())
}

#[test]
fn drain_vec_takes_a_range_that_fits() {
    let col = VecSink::new();
    for i in 0..5 {
        col.give(i)
    }
    assert_eq!(col.drain_vec(1..3), Some(vec![1, 2]));
    // past the end, or reversed: nothing is taken
    assert_eq!(col.drain_vec(2..100), None);
    assert_eq!(col.drain_vec(2..=3), None);
    let reversed = 2..1;
    assert_eq!(col.drain_vec(reversed), None);
    assert_eq!(col.drain_vec(2..=2), Some(vec![4]));
    assert_eq!(col.drain_vec(..), Some(vec![0, 3]));
    assert_eq!(col.drain_vec(..).unwrap(), Vec::<i32>::new());
}

#[test]
fn stateless_sink_closes_on_max_epoch() {
    let col: VecSink<DataMessage<NoKey, i32, u64>> = VecSink::new();
    let mut sink = StatelessSink::new(col.clone());
    assert!(!sink.apply(Message::Data(DataMessage::new(NoKey, 1, 0))));
    assert!(!sink.apply(Message::<NoKey, i32, u64>::Epoch(10)));
    assert!(sink.apply(Message::<NoKey, i32, u64>::Epoch(u64::MAX)));
    assert_eq!(col.drain_vec(..).unwrap().len(), 1);
}

#[test]
fn cloned_streams_each_get_every_message() {
    let outputs = Stream::from_iterator("source", FromIteratorSource::new(vec![1, 2, 3])).cloned("fan-out", 3);
    assert_eq!(outputs.len(), 3);
    for (i, out) in outputs.into_iter().enumerate() {
        let collector = VecSink::new();
        out.sink(&format!("sink-{i}"), StatelessSink::new(collector.clone()));
        let values: Vec<i32> = collector.into_vec().into_iter().map(|x| x.value).collect();
        assert_eq!(values, vec![1, 2, 3]);
    }
}

#[test]
fn cloned_keeps_control_messages_in_place() {
    let stream = Stream::from_messages(vec![
        Message::<NoKey, i32, u64>::Data(DataMessage::new(NoKey, 7, 1)),
        Message::Epoch(4),
        Message::AbsBarrier(Barrier { version: 2 }),
    ]);
    let outputs = stream.cloned("fan-out", 2);
    for out in outputs {
        let msgs = out.into_messages();
        assert_eq!(msgs.len(), 3);
        assert!(matches!(&msgs[0], Message::Data(d) if d.value == 7 && d.timestamp == 1));
        assert!(matches!(&msgs[1], Message::Epoch(4)));
        assert!(matches!(&msgs[2], Message::AbsBarrier(b) if b.version == 2));
    }
}

#[test]
fn sink_stops_at_the_end_of_the_stream() {
    let collector = VecSink::new();
    let stream = Stream::from_messages(vec![
        Message::<NoKey, i32, u64>::Data(DataMessage::new(NoKey, 1, 0)),
        Message::Epoch(u64::MAX),
        Message::Data(DataMessage::new(NoKey, 2, 0)),
    ]);
    stream.sink("sink", StatelessSink::new(collector.clone()));
    let values: Vec<i32> = collector.into_vec().into_iter().map(|x| x.value).collect();
    assert_eq!(values, vec![1]);
}

#[test]
fn ranges_resolve_where_draining_would_not_panic() {
    assert_eq!(resolve_range(RangeEnd::Included(1), RangeEnd::Excluded(3), 5), Some((1, 3)));
    assert_eq!(resolve_range(RangeEnd::Excluded(1), RangeEnd::Included(3), 5), Some((2, 4)));
    assert_eq!(resolve_range(RangeEnd::Unbounded, RangeEnd::Unbounded, 5), Some((0, 5)));
    assert_eq!(resolve_range(RangeEnd::Included(5), RangeEnd::Unbounded, 5), Some((5, 5)));
    assert_eq!(resolve_range(RangeEnd::Included(6), RangeEnd::Unbounded, 5), None);
    assert_eq!(resolve_range(RangeEnd::Unbounded, RangeEnd::Included(5), 5), None);
    assert_eq!(resolve_range(RangeEnd::Excluded(usize::MAX), RangeEnd::Unbounded, 5), None);
}
