//! The bounded hand-off channel between the producing sampler and the
//! consuming media sequence.
//!
//! The channel is the single synchronization point of the whole core: the
//! producer may only send, the consumer may only receive.  It is std's
//! bounded channel, declared and wrapped here; the caller creates one with
//! [`HANDOFF_CAPACITY`] slots and gives the sending half to the producer.

use vstd::prelude::*;

verus! {

/// The capacity `C` of the hand-off channel: how many confirmed-valid
/// paths may sit between producer and consumer.
pub const HANDOFF_CAPACITY: usize = 3;

#[verifier::external_type_specification]
#[verifier::external_body]
#[verifier::reject_recursive_types(T)]
pub struct ExSyncSender<T>(std::sync::mpsc::SyncSender<T>);

#[verifier::external_type_specification]
#[verifier::external_body]
#[verifier::reject_recursive_types(T)]
pub struct ExReceiver<T>(std::sync::mpsc::Receiver<T>);

/// The outcome of a non-blocking attempt to hand a path to the consumer.
pub enum SendAttempt {
    /// The path was handed over.
    Delivered,
    /// The channel's buffer is full; the path comes back untouched.
    Full(String),
    /// The consumer dropped its end; the path comes back untouched.
    Disconnected(String),
}

/// Relies on `SyncSender::try_send`: it delivers without blocking when the
/// buffer has room, reports a full buffer without sending otherwise, and
/// reports a closed channel once the receiver is gone; in both error cases
/// the value is handed back unchanged.
#[verifier::external_body]
pub(crate) fn try_send_path(tx: &std::sync::mpsc::SyncSender<String>, path: String) -> (r:
    SendAttempt)
    ensures
        r matches SendAttempt::Full(p) ==> p == path,
        r matches SendAttempt::Disconnected(p) ==> p == path,
{
    match tx.try_send(path) {
        Ok(()) => SendAttempt::Delivered,
        Err(std::sync::mpsc::TrySendError::Full(p)) => SendAttempt::Full(p),
        Err(std::sync::mpsc::TrySendError::Disconnected(p)) => SendAttempt::Disconnected(p),
    }
}

/// Relies on `SyncSender::send`: it blocks until the consumer has made
/// room and the value is handed over (returning `None`), or hands the
/// value back unchanged once the receiver is gone.
#[verifier::external_body]
pub(crate) fn send_path(tx: &std::sync::mpsc::SyncSender<String>, path: String) -> (r: Option<
    String,
>)
    ensures
        r matches Some(p) ==> p == path,
{
    match tx.send(path) {
        Ok(()) => None,
        Err(std::sync::mpsc::SendError(p)) => Some(p),
    }
}

/// Relies on `Receiver::recv`: it blocks until a value arrives and returns
/// it, or reports with `None` that the channel is closed and drained.
/// Which value arrives depends on the producer, so nothing is promised of
/// the result.
#[verifier::external_body]
pub(crate) fn recv_path(rx: &std::sync::mpsc::Receiver<String>) -> (r: Option<String>) {
    rx.recv().ok()
}

} // verus!
