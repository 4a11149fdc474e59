use std::collections::HashMap;

use malstrom::stateful::{map_keys, StatefulOp};
use malstrom::types::{DataMessage, Interrogate, NoTime};

/// A logic which always sets the last value as state and emits nothing.
fn keep_last(msg: DataMessage<u64, String, NoTime>, _state: String) -> (Option<String>, Vec<()>) {
    (Some(msg.value), Vec::new())
}

/// A logic which only retains state if the value is at most 3 long.
fn keep_short(msg: DataMessage<u64, String, NoTime>, _state: String) -> (Option<String>, Vec<()>) {
    if msg.value.len() > 3 {
        (None, Vec::new())
    } else {
        (Some(msg.value), Vec::new())
    }
}

/// A logic which keeps a total per key and emits it.
fn running_total(msg: DataMessage<u64, i32, NoTime>, state: i32) -> (Option<i32>, Vec<i32>) {
    let new_value = state + msg.value;
    (Some(new_value), vec![new_value])
}

#[test]
fn test_interrogate() {
    let mut op: StatefulOp<String> = StatefulOp::new();
    op.on_data(DataMessage::new(1, "foo".to_string(), NoTime), keep_last);
    op.on_data(DataMessage::new(5, "bar".to_string(), NoTime), keep_last);

    let mut interrogator = Interrogate::new();
    op.on_interrogate(&mut interrogator);
    let mut keys = interrogator.keys;
    keys.sort();
    assert_eq!(vec![1, 5], keys)
}

/// Check we do not add discarded keys
#[test]
fn test_interrogate_discarded() {
    let mut op: StatefulOp<String> = StatefulOp::new();
    op.on_data(DataMessage::new(1, "foo".to_string(), NoTime), keep_short);
    op.on_data(DataMessage::new(1, "hello".to_string(), NoTime), keep_short);
    let mut interrogator = Interrogate::new();
    op.on_interrogate(&mut interrogator);
    assert!(interrogator.keys.is_empty());
}

/// Check key state is collected
#[test]
fn test_collect() {
    let mut op: StatefulOp<String> = StatefulOp::new();
    op.on_data(DataMessage::new(1, "foo".to_string(), NoTime), keep_last);
    op.on_data(DataMessage::new(5, "bar".to_string(), NoTime), keep_last);
    let collected = op.on_collect(1);
    assert_eq!(Some("foo".to_string()), collected);
    assert!(op.get(1).is_none());
    assert_eq!(op.get(5), Some(&"bar".to_string()));
}

/// check we do not collect discarded state
#[test]
fn test_collect_discarded() {
    let mut op: StatefulOp<String> = StatefulOp::new();
    op.on_data(DataMessage::new(1, "foo".to_string(), NoTime), keep_short);
    op.on_data(DataMessage::new(1, "hello".to_string(), NoTime), keep_short);
    assert!(op.on_collect(1).is_none());
}

// check we acquire state when instructed
#[test]
fn test_acquire_state() {
    // logic which always returns the state as a message and
    // sets the message value as state
    let logic = |mut msg: DataMessage<u64, String, NoTime>, mut state: String| {
        std::mem::swap(&mut state, &mut msg.value);
        (Some(state), vec![msg])
    };
    let mut op: StatefulOp<String> = StatefulOp::new();
    op.on_acquire(1337, Some("HelloWorld".to_owned()));
    let out = op.on_data(DataMessage::new(1337, "".to_owned(), NoTime), logic);
    assert_eq!(out.len(), 1);
    assert_eq!(out[0].key, 1337);
    assert_eq!(out[0].value, "HelloWorld");
}

// check we drop key state when instructed
#[test]
fn test_drop_key_state() {
    let mut op: StatefulOp<i32> = StatefulOp::new();
    op.on_data(DataMessage::new(0, 1, NoTime), running_total);
    let out = op.on_data(DataMessage::new(0, 2, NoTime), running_total);
    assert_eq!(out, vec![3]);

    op.on_collect(0);

    let out = op.on_data(DataMessage::new(0, 1, NoTime), running_total);
    // sum should be back to 1 since we dropped the state
    assert_eq!(out, vec![1]);
}

// check we snapshot state
#[test]
fn test_snapshot_state() {
    let mut op: StatefulOp<i32> = StatefulOp::new();
    op.on_data(DataMessage::new(0, 1, NoTime), running_total);
    let state = op.snapshot();
    assert_eq!(*state.get(&0).unwrap(), 1);
}

#[test]
fn restored_state_is_used() {
    let mut snapshot = HashMap::new();
    snapshot.insert(7u64, 40i32);
    let mut op = StatefulOp::from_state(snapshot);
    let out = op.on_data(DataMessage::new(7, 2, NoTime), running_total);
    assert_eq!(out, vec![42]);
}

#[test]
fn map_keys_lists_each_key_once() {
    let mut m = HashMap::new();
    m.insert(3u64, ());
    m.insert(1u64, ());
    m.insert(2u64, ());
    let mut keys = map_keys(&m);
    keys.sort();
    assert_eq!(keys, vec![1, 2, 3]);
}

#[test]
fn epoch_logic_sees_and_replaces_all_states() {
    let mut op: StatefulOp<i32> = StatefulOp::new();
    op.on_data(DataMessage::new(1, 5, NoTime), |m: DataMessage<u64, i32, NoTime>, s: i32| (Some(s + m.value), ()));
    op.on_data(DataMessage::new(2, 7, NoTime), |m: DataMessage<u64, i32, NoTime>, s: i32| (Some(s + m.value), ()));
    // drop every state below 6 when the epoch passes, report how many were seen
    let seen = op.on_epoch(&10u64, |_e: &u64, states: HashMap<u64, i32>| {
        let n = states.len();
        let kept: HashMap<u64, i32> = states.into_iter().filter(|(_, v)| *v >= 6).collect();
        (kept, n)
    });
    assert_eq!(seen, 2);
    assert_eq!(op.get(1), None);
    assert_eq!(op.get(2), Some(&7));
    let n = op.on_schedule(|states: HashMap<u64, i32>| {
        let n = states.len();
        (states, n)
    });
    assert_eq!(n, 1);
    assert_eq!(op.get(2), Some(&7));
}
