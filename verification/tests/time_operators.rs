use malstrom::sinks::StatelessSink;
use malstrom::sources::FromEnumeratedIteratorSource;
use malstrom::stream::{AssignTimestamps, Sink, Stream};
use malstrom::time::{classify_lateness, late_part, on_time_part, route_on_time_late, EpochGenerator, OnTimeLate};
use malstrom::types::{DataMessage, Message, NoKey};
use malstrom::vec_sink::VecSink;

fn source<V>(values: Vec<V>) -> Stream<NoKey, V, usize> {
    Stream::from_enumerated_iterator("source", FromEnumeratedIteratorSource::new(values))
}

/// Records every epoch passing, forwards the stream unchanged.
fn epoch_collector<K, V, T: Clone>(stream: Stream<K, V, T>, collector: VecSink<T>) -> Stream<K, V, T> {
    for m in stream.messages() {
        if let Message::Epoch(e) = m {
            collector.give(e.clone());
        }
    }
    stream
}

/// Check that the assigner assigns a timestamp to every record
#[test]
fn test_timestamp_gets_assigned() {
    let collector = VecSink::new();
    let (ontime, _late) = source((0..10).collect::<Vec<i32>>())
        .assign_timestamps("ts-double-value", |x| x.value * 2)
        .generate_epochs("no-epochs", |_x, _y| None);
    ontime.sink("sink", StatelessSink::new(collector.clone()));

    let timestamps: Vec<i32> = collector.into_vec().into_iter().map(|x| x.timestamp).collect();
    assert_eq!((0..10).map(|x| x * 2).collect::<Vec<_>>(), timestamps)
}

/// check epochs get issued according to the given function
#[test]
fn test_epoch_gets_issued() {
    let collector = VecSink::new();
    let late_collector = VecSink::new();

    let (stream, late) = source((0..10).collect::<Vec<i32>>())
        .assign_timestamps("ts-from-value", |x| x.value)
        .generate_epochs("add-epoch", |msg, epoch| Some(msg.timestamp + epoch.unwrap_or(0)));

    epoch_collector(stream, collector.clone());
    epoch_collector(late, late_collector.clone());

    let timestamps: Vec<i32> = collector.drain_vec(..).unwrap();
    assert_eq!(
        timestamps,
        vec![0, 1, 3, 6, 10, 15, 21, 28, 36, 45, i32::MAX]
    )
}

/// Check epochs get removed if a new assign_timestamps is added (except for MAX)
#[test]
fn test_epochs_get_removed() {
    let time_collector = VecSink::new();

    let (stream, _late) = source((0..10).collect::<Vec<i32>>())
        .generate_epochs("monotonic-epoch", |msg, _| Some(msg.timestamp));

    // this should remove epochs
    let (stream, _) = stream
        .assign_timestamps("ts-as-i32", |x| x.timestamp as i32)
        .generate_epochs("no-epochs", |_x, _y| None);

    epoch_collector(stream, time_collector.clone());

    let timestamps: Vec<i32> = time_collector.drain_vec(..).unwrap();
    // only max epoch should have gone through
    assert_eq!(timestamps, vec![i32::MAX])
}

/// Check the epoch is issued AFTER the data message given to the
/// epoch generator
#[test]
fn test_epoch_issued_after_message() {
    let collector = VecSink::new();
    let (ontime, _late) = source((1..4).collect::<Vec<i32>>())
        .assign_timestamps("value-as-ts", |x| x.value)
        .generate_epochs("monotonic", |msg, _epoch| Some(msg.timestamp));

    for m in ontime.messages() {
        match m {
            // encode epoch to -T
            Message::Data(d) => collector.give(d.timestamp),
            Message::Epoch(e) => collector.give(-e),
            _ => {}
        }
    }

    assert_eq!(
        collector.drain_vec(..).unwrap(),
        vec![1, -1, 2, -2, 3, -3, -i32::MAX]
    )
}

/// Test late messages are placed into the late stream
#[test]
fn test_late_message_into_late_stream() {
    let collector_ontime = VecSink::new();
    let collector_late = VecSink::new();

    let (ontime, late) = source((5..10).chain(0..5).collect::<Vec<i32>>())
        .assign_timestamps("value-ts", |x| x.value)
        .generate_epochs("monotonic", |msg, _epoch| Some(msg.timestamp));

    ontime.sink("sink-ontime", StatelessSink::new(collector_ontime.clone()));
    late.sink("sink-late", StatelessSink::new(collector_late.clone()));

    assert_eq!(
        collector_ontime
            .into_vec()
            .into_iter()
            .map(|x| (x.timestamp, x.value))
            .collect::<Vec<_>>(),
        (5..10).map(|x| (x, x)).collect::<Vec<_>>()
    );
    assert_eq!(
        collector_late.into_vec().into_iter().map(|x| x.value).collect::<Vec<_>>(),
        (0..5).collect::<Vec<_>>()
    );
}

/// test we ignore None epoch or smaller epoch
#[test]
fn test_ignore_none_or_smaller_epoch() {
    let collector_ontime = VecSink::new();
    let (ontime, _) = source((0..6).collect::<Vec<i32>>()).generate_epochs("out-of-order", |msg, _epoch| {
        match msg.timestamp {
            3 => Some(2), // should be ignrored
            1 => None,    // this too
            x => Some(x),
        }
    });
    epoch_collector(ontime, collector_ontime.clone());
    let epochs = collector_ontime.drain_vec(..).unwrap();
    assert_eq!(epochs, vec![0, 2, 4, 5, usize::MAX])
}

#[test]
fn message_without_epoch_is_on_time() {
    let d = classify_lateness(None, DataMessage::new(NoKey, 7, 3i32));
    assert_eq!(d.value, OnTimeLate::OnTime(7));
}

#[test]
fn message_at_or_before_epoch_is_late() {
    let at = classify_lateness(Some(3i32), DataMessage::new(NoKey, 1, 3i32));
    assert_eq!(at.value, OnTimeLate::Late(1));
    let before = classify_lateness(Some(3i32), DataMessage::new(NoKey, 2, 2i32));
    assert_eq!(before.value, OnTimeLate::Late(2));
    let after = classify_lateness(Some(3i32), DataMessage::new(NoKey, 3, 4i32));
    assert_eq!(after.value, OnTimeLate::OnTime(3));
}

#[test]
fn split_routes_each_message_to_one_output() {
    assert_eq!(route_on_time_late(&OnTimeLate::OnTime(1)), [true, false]);
    assert_eq!(route_on_time_late(&OnTimeLate::Late(1)), [false, true]);
}

#[test]
fn max_epoch_passes_assign_timestamps_as_new_max() {
    let (stream, _) = source(vec![1u64, 2])
        .assign_timestamps("as-u64", |x| x.value)
        .generate_epochs("none", |_x, _y| None);
    let epochs: Vec<u64> = stream
        .messages()
        .iter()
        .filter_map(|m| match m {
            Message::Epoch(e) => Some(*e),
            _ => None,
        })
        .collect();
    assert_eq!(epochs, vec![u64::MAX]);
}

#[test]
fn on_time_and_late_parts_unwrap_their_values() {
    let on_time = Message::<NoKey, OnTimeLate<i32>, u64>::Data(DataMessage::new(NoKey, OnTimeLate::OnTime(3), 7));
    match on_time_part(on_time) {
        Some(Message::Data(d)) => assert_eq!((d.value, d.timestamp), (3, 7)),
        _ => panic!("on-time data must pass the on-time part"),
    }
    let late = Message::<NoKey, OnTimeLate<i32>, u64>::Data(DataMessage::new(NoKey, OnTimeLate::Late(4), 2));
    assert!(on_time_part(late).is_none());
    let late = Message::<NoKey, OnTimeLate<i32>, u64>::Data(DataMessage::new(NoKey, OnTimeLate::Late(4), 2));
    match late_part(late) {
        Some(Message::Data(d)) => assert_eq!((d.value, d.timestamp), (4, 2)),
        _ => panic!("late data must pass the late part"),
    }
    assert!(matches!(late_part(Message::<NoKey, OnTimeLate<i32>, u64>::Epoch(9)), Some(Message::Epoch(9))));
}

#[test]
fn epoch_generator_remembers_the_last_epoch() {
    let mut gen = EpochGenerator::new(|d: &DataMessage<NoKey, i32, i64>, _e: &Option<i64>| Some(d.timestamp - 1));
    assert_eq!(gen.get_last_epoch(), None);
    let out = gen.apply(Message::Data(DataMessage::new(NoKey, 1, 10)));
    assert_eq!(out.len(), 2);
    assert!(matches!(&out[1], Message::Epoch(9)));
    assert_eq!(gen.get_last_epoch(), Some(9));
    // a smaller epoch is not issued
    let out = gen.apply(Message::Data(DataMessage::new(NoKey, 2, 5)));
    assert_eq!(out.len(), 1);
    assert_eq!(gen.get_last_epoch(), Some(9));
}
