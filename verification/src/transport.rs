//! Transport of serialized messages between workers over in-process channels
//! feeding network streams.
use vstd::prelude::*;

use flume::{Receiver, SendTimeoutError, Sender, TryRecvError};
use std::time::Duration;

verus! {

#[verifier::external_type_specification]
#[verifier::external_body]
#[verifier::reject_recursive_types(T)]
pub struct ExFlumeSender<T>(Sender<T>);

#[verifier::external_type_specification]
#[verifier::external_body]
#[verifier::reject_recursive_types(T)]
pub struct ExFlumeReceiver<T>(Receiver<T>);

#[verifier::external_type_specification]
#[verifier::external_body]
#[verifier::reject_recursive_types(T)]
pub struct ExSendTimeoutError<T>(SendTimeoutError<T>);

#[verifier::external_type_specification]
#[verifier::external_body]
pub struct ExTryRecvError(TryRecvError);

/// Why sending to an outbound queue failed.
#[derive(Clone, Copy, Debug, PartialEq, Eq, Structural)]
pub enum SendFailure {
    /// The queue stayed full until the timeout.
    Timeout,
    /// The receiving side is gone.
    Disconnected,
}

/// Why receiving from an inbound queue returned no message.
#[derive(Clone, Copy, Debug, PartialEq, Eq, Structural)]
pub enum RecvFailure {
    /// The queue is empty right now.
    Empty,
    /// All senders are gone and the queue is empty.
    Disconnected,
}

/// `flume::Sender::send_timeout`: enqueue a message, waiting up to the timeout
/// for room. The outcome depends on the other side of the channel and on
/// time, so nothing is stated of it. Timeouts are bounded so that the
/// deadline can not overflow the clock.
#[verifier::external_body]
fn queue_send(s: &Sender<Vec<u8>>, msg: Vec<u8>, timeout_ms: u64) -> (r: Result<(), SendFailure>)
    requires
        timeout_ms < 0x100_0000_0000,
{
    match s.send_timeout(msg, Duration::from_millis(timeout_ms)) {
        Ok(()) => Ok(()),
        Err(SendTimeoutError::Timeout(_)) => Err(SendFailure::Timeout),
        Err(SendTimeoutError::Disconnected(_)) => Err(SendFailure::Disconnected),
    }
}

/// `flume::Receiver::try_recv`: take a message if one is queued. The outcome
/// depends on the other side of the channel, so nothing is stated of it.
#[verifier::external_body]
fn queue_try_recv(r: &Receiver<Vec<u8>>) -> (out: Result<Vec<u8>, RecvFailure>) {
    match r.try_recv() {
        Ok(m) => Ok(m),
        Err(TryRecvError::Empty) => Err(RecvFailure::Empty),
        Err(TryRecvError::Disconnected) => Err(RecvFailure::Disconnected),
    }
}

/// Errors sending through a gRPC transport.
#[derive(Clone, Copy, Debug, PartialEq, Eq, Structural)]
pub enum GrpcTransportSendError {
    /// Queue Full: Timeout trying to enqueue message into outbound queue
    QueueFullTimeout,
    /// Sender Thread Dead: Sender thread is disconnected.
    SenderDead,
}

/// Errors receiving from a gRPC transport.
#[derive(Clone, Copy, Debug, PartialEq, Eq, Structural)]
pub enum GrpcTransportRecvError {
    /// Receiver Dead: This indicates the internal server died.
    ReceiverDead,
}

/// Errors of a transport between workers.
#[derive(Clone, Copy, Debug, PartialEq, Eq, Structural)]
pub enum TransportError {
    SendError(GrpcTransportSendError),
    RecvError(GrpcTransportRecvError),
}

impl GrpcTransportSendError {
    /// This error as a transport error.
    pub fn wrapped(self) -> (r: TransportError)
        ensures
            r == TransportError::SendError(self),
    {
        TransportError::SendError(self)
    }
}

impl GrpcTransportRecvError {
    /// This error as a transport error.
    pub fn wrapped(self) -> (r: TransportError)
        ensures
            r == TransportError::RecvError(self),
    {
        TransportError::RecvError(self)
    }
}

/// The transport's answer to the outcome of enqueueing an outbound message.
pub fn send_outcome(r: Result<(), SendFailure>) -> (out: Result<(), TransportError>)
    ensures
        r is Ok ==> out is Ok,
        r == Err::<(), SendFailure>(SendFailure::Timeout) ==> out == Err::<(), TransportError>(
            TransportError::SendError(GrpcTransportSendError::QueueFullTimeout),
        ),
        r == Err::<(), SendFailure>(SendFailure::Disconnected) ==> out == Err::<(), TransportError>(
            TransportError::SendError(GrpcTransportSendError::SenderDead),
        ),
{
    match r {
        Ok(()) => Ok(()),
        Err(SendFailure::Timeout) => Err(GrpcTransportSendError::QueueFullTimeout.wrapped()),
        Err(SendFailure::Disconnected) => Err(GrpcTransportSendError::SenderDead.wrapped()),
    }
}

/// The transport's answer to the outcome of polling the inbound queue: a
/// message, no message yet, or the error that the receiver is dead.
pub fn recv_outcome(r: Result<Vec<u8>, RecvFailure>) -> (out: Result<Option<Vec<u8>>, TransportError>)
    ensures
        r matches Ok(m) ==> out == Ok::<Option<Vec<u8>>, TransportError>(Some(m)),
        r == Err::<Vec<u8>, RecvFailure>(RecvFailure::Empty) ==> out == Ok::<
            Option<Vec<u8>>,
            TransportError,
        >(None),
        r == Err::<Vec<u8>, RecvFailure>(RecvFailure::Disconnected) ==> out == Err::<
            Option<Vec<u8>>,
            TransportError,
        >(TransportError::RecvError(GrpcTransportRecvError::ReceiverDead)),
{
    match r {
        Ok(m) => Ok(Some(m)),
        Err(RecvFailure::Empty) => Ok(None),
        Err(RecvFailure::Disconnected) => Err(GrpcTransportRecvError::ReceiverDead.wrapped()),
    }
}

/// A transport between two workers: outbound messages are queued for a task
/// streaming them over the network, inbound messages arrive in a queue fed by
/// the network server.
pub struct GrpcTransport {
    outbound_sender: Sender<Vec<u8>>,
    inbound_receiver: Receiver<Vec<u8>>,
    enqueue_timeout_ms: u64,
}

impl GrpcTransport {
    /// A transport over the given queues.
    pub fn new(outbound_sender: Sender<Vec<u8>>, inbound_receiver: Receiver<Vec<u8>>, enqueue_timeout_ms: u64) -> (r: Self)
        requires
            enqueue_timeout_ms < 0x100_0000_0000,
        ensures
            r.wf(),
            r.outbound_queue() == outbound_sender,
            r.inbound_queue() == inbound_receiver,
            r.enqueue_timeout_ms() == enqueue_timeout_ms,
    {
        GrpcTransport { outbound_sender, inbound_receiver, enqueue_timeout_ms }
    }

    /// The queue outbound messages are put into.
    pub closed spec fn outbound_queue(&self) -> Sender<Vec<u8>> {
        self.outbound_sender
    }

    /// The queue inbound messages are taken from.
    pub closed spec fn inbound_queue(&self) -> Receiver<Vec<u8>> {
        self.inbound_receiver
    }

    /// How long, in milliseconds, sending waits for room in the outbound
    /// queue.
    pub closed spec fn enqueue_timeout_ms(&self) -> u64 {
        self.enqueue_timeout_ms
    }

    /// The enqueue timeout is small enough for the clock.
    pub closed spec fn wf(&self) -> bool {
        self.enqueue_timeout_ms < 0x100_0000_0000
    }

    /// The receiving end of the inbound queue, for asynchronous receiving.
    pub fn inbound(&self) -> (r: &Receiver<Vec<u8>>)
        ensures
            *r == self.inbound_queue(),
    {
        &self.inbound_receiver
    }

    /// Send a message: `Ok` once it is queued, an error if the queue stayed
    /// full until the timeout or the sending task is gone.
    pub fn send(&self, msg: Vec<u8>) -> (r: Result<(), TransportError>)
        requires
            self.wf(),
        ensures
            r is Ok || r == Err::<(), TransportError>(
                TransportError::SendError(GrpcTransportSendError::QueueFullTimeout),
            ) || r == Err::<(), TransportError>(
                TransportError::SendError(GrpcTransportSendError::SenderDead),
            ),
    {
        let q = queue_send(&self.outbound_sender, msg, self.enqueue_timeout_ms);
        proof {
            match q {
                Ok(_) => {},
                Err(SendFailure::Timeout) => {},
                Err(SendFailure::Disconnected) => {},
            }
        }
        send_outcome(q)
    }

    /// Receive a message if one is queued.
    pub fn recv(&self) -> (r: Result<Option<Vec<u8>>, TransportError>)
        ensures
            r is Ok || r == Err::<Option<Vec<u8>>, TransportError>(
                TransportError::RecvError(GrpcTransportRecvError::ReceiverDead),
            ),
    {
        let q = queue_try_recv(&self.inbound_receiver);
        proof {
            match q {
                Ok(_) => {},
                Err(RecvFailure::Empty) => {},
                Err(RecvFailure::Disconnected) => {},
            }
        }
        recv_outcome(q)
    }
}

} // verus!
