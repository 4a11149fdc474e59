use malstrom::transport::{
    recv_outcome, send_outcome, GrpcTransport, GrpcTransportRecvError, GrpcTransportSendError,
    RecvFailure, SendFailure, TransportError,
};

#[test]
fn errors_are_wrapped() {
    assert_eq!(GrpcTransportSendError::QueueFullTimeout.wrapped(), TransportError::SendError(GrpcTransportSendError::QueueFullTimeout));
    assert_eq!(GrpcTransportRecvError::ReceiverDead.wrapped(), TransportError::RecvError(GrpcTransportRecvError::ReceiverDead));
}

#[test]
fn outcomes_map_to_transport_errors() {
    assert_eq!(send_outcome(Ok(())), Ok(()));
    assert_eq!(send_outcome(Err(SendFailure::Timeout)), Err(TransportError::SendError(GrpcTransportSendError::QueueFullTimeout)));
    assert_eq!(send_outcome(Err(SendFailure::Disconnected)), Err(TransportError::SendError(GrpcTransportSendError::SenderDead)));
    assert_eq!(recv_outcome(Ok(vec![1])), Ok(Some(vec![1])));
    assert_eq!(recv_outcome(Err(RecvFailure::Empty)), Ok(None));
    assert_eq!(recv_outcome(Err(RecvFailure::Disconnected)), Err(TransportError::RecvError(GrpcTransportRecvError::ReceiverDead)));
}

#[test]
fn transport_over_channels() {
    let (out_tx, out_rx) = flume::bounded(1);
    let (in_tx, in_rx) = flume::unbounded();
    let t = GrpcTransport::new(out_tx, in_rx, 10);
    assert_eq!(t.send(vec![1]), Ok(()));
    // queue of one is full now
    assert_eq!(t.send(vec![2]), Err(TransportError::SendError(GrpcTransportSendError::QueueFullTimeout)));
    assert_eq!(out_rx.recv().unwrap(), vec![1]);
    assert_eq!(t.recv(), Ok(None));
    in_tx.send(vec![7]).unwrap();
    assert_eq!(t.recv(), Ok(Some(vec![7])));
    drop(in_tx);
    assert_eq!(t.recv(), Err(TransportError::RecvError(GrpcTransportRecvError::ReceiverDead)));
    drop(out_rx);
    assert_eq!(t.send(vec![3]), Err(TransportError::SendError(GrpcTransportSendError::SenderDead)));
}

#[test]
fn inbound_is_the_queue_given() {
    let (_out_tx, _out_rx) = flume::unbounded::<Vec<u8>>();
    let (in_tx, in_rx) = flume::unbounded();
    let t = GrpcTransport::new(_out_tx, in_rx, 10);
    in_tx.send(vec![5]).unwrap();
    assert_eq!(t.inbound().try_recv().unwrap(), vec![5]);
}
