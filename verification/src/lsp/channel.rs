//! The bounded channels between the foreground and the worker.
//!
//! The channels are those of `crossbeam`. Whether a message is taken or one
//! is waiting depends on the other side, so nothing is claimed of what these
//! calls return.

use crossbeam::channel::{Receiver, RecvTimeoutError, Sender};
use std::time::Duration;
use vstd::prelude::*;

verus! {

/// The sending end of a `crossbeam` channel.
#[verifier::external_type_specification]
#[verifier::external_body]
#[verifier::reject_recursive_types(T)]
pub struct ExSender<T>(Sender<T>);

/// The receiving end of a `crossbeam` channel.
#[verifier::external_type_specification]
#[verifier::external_body]
#[verifier::reject_recursive_types(T)]
pub struct ExReceiver<T>(Receiver<T>);

/// How a bounded wait for a message ended.
pub enum Waited<T> {
    /// A message came.
    Message(T),
    /// The wait elapsed and no message came.
    TimedOut,
    /// The channel is empty and every sender is gone.
    Disconnected,
}

/// The largest capacity that this library asks of a channel.
pub const MAX_CAPACITY: usize = 0xffff;

/// `crossbeam::channel::bounded`: the two ends of a new channel that holds at
/// most `capacity` messages. The call panics on a capacity whose ring buffer
/// cannot be indexed; the bound here keeps far away from that.
#[verifier::external_body]
pub(crate) fn bounded<T>(capacity: usize) -> (ends: (Sender<T>, Receiver<T>))
    requires
        capacity <= MAX_CAPACITY,
{
    crossbeam::channel::bounded(capacity)
}

/// `Sender::try_send`: offers a message without waiting. The result says
/// whether the channel took it; a message that is not taken is dropped.
#[verifier::external_body]
pub(crate) fn try_send<T>(sender: &Sender<T>, message: T) -> (taken: bool) {
    sender.try_send(message).is_ok()
}

/// `Sender::clone`: one more sending end of the same channel.
#[verifier::external_body]
pub(crate) fn clone_sender<T>(sender: &Sender<T>) -> (copy: Sender<T>) {
    sender.clone()
}

/// `Receiver::try_recv`: takes a message if one is waiting.
#[verifier::external_body]
pub(crate) fn try_recv<T>(receiver: &Receiver<T>) -> (message: Option<T>) {
    receiver.try_recv().ok()
}

/// The longest wait that this library asks of a channel, in milliseconds.
pub const MAX_WAIT_MS: u64 = 60_000;

/// `Receiver::recv_timeout`: waits up to `millis` milliseconds for a message.
/// The wait is kept short, so that the call returns whatever the other side
/// does.
#[verifier::external_body]
pub(crate) fn recv_timeout<T>(receiver: &Receiver<T>, millis: u64) -> (waited: Waited<T>)
    requires
        millis <= MAX_WAIT_MS,
{
    match receiver.recv_timeout(Duration::from_millis(millis)) {
        Ok(message) => Waited::Message(message),
        Err(RecvTimeoutError::Timeout) => Waited::TimedOut,
        Err(RecvTimeoutError::Disconnected) => Waited::Disconnected,
    }
}

} // verus!
