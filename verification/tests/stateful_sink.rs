use malstrom::stateful_sink::{Part, StatefulSink, StatefulSinkImpl, StatefulSinkPartition, StatefulSinkPartitionOp};
use malstrom::types::{DataMessage, Interrogate, Message, NoKey};

/// A partition counting the records it received, starting from its state.
struct CountingPartition {
    count: u64,
}

impl StatefulSinkPartition<NoKey, i32, u64> for CountingPartition {
    type PartitionState = u64;

    fn sink(&mut self, _msg: DataMessage<NoKey, i32, u64>) {
        self.count += 1;
    }

    fn snapshot(&self) -> u64 {
        self.count
    }

    fn collect(self) -> u64 {
        self.count
    }
}

/// Partitions records by the parity of their value.
struct ParitySink;

impl StatefulSinkImpl<NoKey, i32, u64> for ParitySink {
    type PartitionState = u64;
    type SinkPartition = CountingPartition;

    fn assign_part(&self, msg: &DataMessage<NoKey, i32, u64>) -> Part {
        (msg.value % 2) as Part
    }

    fn build_part(&mut self, _part: Part, part_state: Option<u64>) -> CountingPartition {
        CountingPartition { count: part_state.unwrap_or(0) }
    }
}

fn record(part: Part, value: i32) -> DataMessage<Part, (NoKey, i32), u64> {
    DataMessage::new(part, (NoKey, value), 0)
}

#[test]
fn parts_are_assigned_by_the_implementation() {
    let sink = StatefulSink::new(ParitySink);
    match sink.assign_parts(Message::<NoKey, i32, u64>::Data(DataMessage::new(NoKey, 5, 3))) {
        Some(Message::Data(d)) => {
            assert_eq!(d.key, 1);
            assert_eq!(d.value.1, 5);
            assert_eq!(d.timestamp, 3);
        }
        _ => panic!("data must be keyed by its part"),
    }
    assert!(matches!(sink.assign_parts(Message::<NoKey, i32, u64>::Epoch(8)), Some(Message::Epoch(8))));
    assert!(sink.assign_parts(Message::<NoKey, i32, u64>::Interrogate(Interrogate::new())).is_none());
}

#[test]
fn partitions_are_built_on_first_record_and_snapshotted() {
    let mut op: StatefulSinkPartitionOp<CountingPartition, ParitySink> = StatefulSinkPartitionOp::new(ParitySink);
    op.on_data::<NoKey, i32, u64>(record(0, 2));
    op.on_data::<NoKey, i32, u64>(record(0, 4));
    op.on_data::<NoKey, i32, u64>(record(1, 3));
    let mut states = op.on_barrier::<NoKey, i32, u64>();
    states.sort();
    assert_eq!(states, vec![(0, 2), (1, 1)]);

    let mut interrogate = Interrogate::new();
    op.on_interrogate(&mut interrogate);
    let mut keys = interrogate.keys;
    keys.sort();
    assert_eq!(keys, vec![0, 1]);
}

#[test]
fn collected_partition_moves_with_its_state() {
    let mut from: StatefulSinkPartitionOp<CountingPartition, ParitySink> = StatefulSinkPartitionOp::new(ParitySink);
    from.on_data::<NoKey, i32, u64>(record(1, 1));
    from.on_data::<NoKey, i32, u64>(record(1, 3));
    let state = from.on_collect::<NoKey, i32, u64>(1);
    assert_eq!(state, Some(2));
    assert_eq!(from.on_collect::<NoKey, i32, u64>(1), None);

    let mut to: StatefulSinkPartitionOp<CountingPartition, ParitySink> = StatefulSinkPartitionOp::new(ParitySink);
    to.on_acquire::<NoKey, i32, u64>(1, state);
    to.on_data::<NoKey, i32, u64>(record(1, 5));
    assert_eq!(to.on_barrier::<NoKey, i32, u64>(), vec![(1, 3)]);
}
