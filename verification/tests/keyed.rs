use malstrom::keyed::{wid_select, KeyByWid, KeyByWidUnwrapper, KeyLocalImpl};
use malstrom::sources::FromIteratorSource;
use malstrom::stream::{KeyLocal, Stream, WorkerBroadcast};
use malstrom::types::{
    Barrier, Collect, DataMessage, Interrogate, Message, NoKey, ReconfigComplete, RescaleMessage,
};
use malstrom::worker_set::WorkerSet;

fn workers(ids: &[u64]) -> WorkerSet {
    WorkerSet::from_workers(&ids.to_vec())
}

#[test]
fn key_local_rekeys_data_and_drops_keyed_messages() {
    let op = KeyLocalImpl::new(|d: &DataMessage<NoKey, i32, u64>| (d.value % 2) as u64);
    match op.apply(Message::Data(DataMessage::new(NoKey, 7, 3))) {
        Some(Message::Data(d)) => {
            assert_eq!(d.key, 1u64);
            assert_eq!(d.value, 7);
            assert_eq!(d.timestamp, 3);
        }
        _ => panic!("data must be re-keyed"),
    }
    assert!(op.apply(Message::Interrogate(Interrogate::<NoKey>::new())).is_none());
    assert!(op.apply(Message::Collect(Collect { key: NoKey })).is_none());
    match op.apply(Message::<NoKey, i32, u64>::AbsBarrier(Barrier { version: 9 })) {
        Some(Message::AbsBarrier(b)) => assert_eq!(b.version, 9),
        _ => panic!("barriers pass"),
    }
}

#[test]
fn key_local_stream_keeps_values_and_order() {
    let keyed = Stream::from_iterator("source", FromIteratorSource::new(vec![1, 2, 3, 4]))
        .key_local("by-parity", |d| d.value % 2 == 0);
    let pairs: Vec<(bool, i32)> = keyed
        .into_messages()
        .into_iter()
        .filter_map(|m| match m {
            Message::Data(d) => Some((d.key, d.value)),
            _ => None,
        })
        .collect();
    assert_eq!(pairs, vec![(false, 1), (true, 2), (false, 3), (true, 4)]);
}

#[test]
fn broadcast_copies_to_every_worker_in_order() {
    let mut op = KeyByWid::new(workers(&[2, 0, 1]));
    let out = op.apply(Message::Data(DataMessage::new("k", 5, 1u64)));
    let copies: Vec<(u64, (&str, i32))> = out
        .into_iter()
        .map(|m| match m {
            Message::Data(d) => (d.key, d.value),
            _ => panic!("only data expected"),
        })
        .collect();
    assert_eq!(copies, vec![(2, ("k", 5)), (0, ("k", 5)), (1, ("k", 5))]);
}

#[test]
fn broadcast_follows_rescale_and_reconfiguration() {
    let mut op = KeyByWid::new(workers(&[0, 1, 2]));
    let out = op.apply(Message::<&str, i32, u64>::Rescale(RescaleMessage { all_workers: workers(&[1, 2, 3]) }));
    assert_eq!(out.len(), 1);
    assert_eq!(op.workers().len(), 2);
    assert_eq!(op.workers().get(0), Some(1));
    assert_eq!(op.workers().get(1), Some(2));

    let out = op.apply(Message::<&str, i32, u64>::ReconfigComplete(ReconfigComplete { new_workers: workers(&[1, 2, 3]) }));
    assert_eq!(out.len(), 1);
    assert_eq!(op.workers().len(), 3);
    assert_eq!(op.workers().get(2), Some(3));

    let out = op.apply(Message::<&str, i32, u64>::Interrogate(Interrogate::new()));
    assert!(out.is_empty());
}

#[test]
fn broadcast_stream_and_unwrap() {
    let stream = Stream::from_iterator("source", FromIteratorSource::new(vec![10, 20]))
        .worker_broadcast("bc", workers(&[0, 1]));
    let unwrapper = KeyByWidUnwrapper;
    let mut seen = Vec::new();
    for m in stream.into_messages() {
        if let Message::Data(d) = &m {
            seen.push(d.key);
        }
        if let Some(Message::Data(d)) = unwrapper.apply(m) {
            assert_eq!(d.key, NoKey);
        }
    }
    assert_eq!(seen, vec![0, 1, 0, 1]);
}

#[test]
fn worker_set_keeps_first_occurrence() {
    let ws = workers(&[3, 1, 3, 2, 1]);
    assert_eq!(ws.len(), 3);
    assert_eq!(ws.get(0), Some(3));
    assert_eq!(ws.get(1), Some(1));
    assert_eq!(ws.get(2), Some(2));
    assert!(ws.contains(2));
    assert!(!ws.contains(4));
    let d = ws.difference(&workers(&[1]));
    assert_eq!(d.len(), 2);
    assert_eq!(wid_select(&7, &ws), 7);
}
