use malstrom::comm::{CommUtility, CommUtilityError, NoCommunication};
use malstrom::worker_set::WorkerSet;

fn workers(ids: &[u64]) -> WorkerSet {
    WorkerSet::from_workers(&ids.to_vec())
}

fn connect(w: u64, channel: u64) -> (u64, u64) {
    (w, channel)
}

#[test]
fn connects_to_every_worker_of_the_job() {
    let c = CommUtility::new(&workers(&[0, 1, 2]), 7, connect);
    assert_eq!(c.channel_id(), 7);
    assert_eq!(c.connected_workers().len(), 3);
    match c.route(2, "msg") {
        Ok((client, m)) => {
            assert_eq!(*client, (2, 7));
            assert_eq!(m, "msg");
        }
        Err(_) => panic!("worker 2 is connected"),
    }
}

#[test]
fn connects_to_missing_workers() {
    let mut c = CommUtility::new(&workers(&[0, 1]), 7, connect);
    let missing = c.missing_connections(&workers(&[0, 1, 2, 3]));
    assert_eq!(missing.len(), 2);
    assert_eq!(missing.get(0), Some(2));
    assert_eq!(missing.get(1), Some(3));
    // existing connections stay, new ones are made
    c.handle_rescale(&workers(&[0, 1, 2, 3]), |w, ch| (w + 100, ch));
    assert_eq!(c.connected_workers().len(), 4);
    assert_eq!(*c.route(0, ()).ok().unwrap().0, (0, 7));
    assert_eq!(*c.route(3, ()).ok().unwrap().0, (103, 7));
}

#[test]
fn reconfig_drops_departed_workers() {
    let mut c = CommUtility::new(&workers(&[0, 1, 2]), 1, connect);
    c.handle_reconfig_complete(&workers(&[1, 2, 5]));
    assert_eq!(c.connected_workers().len(), 2);
    assert!(c.route(0, "msg").is_err());
    match c.route(1, "msg") {
        Ok((client, m)) => {
            assert_eq!(*client, (1, 1));
            assert_eq!(m, "msg");
        }
        Err(_) => panic!("worker 1 is connected"),
    }
}

#[test]
fn send_to_unknown_worker_hands_message_back() {
    let c = CommUtility::new(&workers(&[]), 0, connect);
    assert!(!c.has_clients());
    match c.route(4, 99) {
        Err(e) => {
            assert_eq!(e.message(), "Worker ID not connected");
            assert_eq!(e, CommUtilityError::WorkerIdNotConnected(99));
        }
        Ok(_) => panic!("no connection exists"),
    }
}

#[test]
fn no_communication_never_connects() {
    let n = NoCommunication;
    assert_eq!(n.new_sender(0, 0), Err("NoCommunication backend cannot create senders"));
    assert_eq!(n.new_receiver(0, 0), Err("NoCommunication backend cannot create receivers"));
}
