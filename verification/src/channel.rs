//! The channels of `flume` that carry finished work back to the thread that
//! owns the world. What a channel holds at a given moment depends on the
//! threads that send into it, so nothing is stated of what comes out of one:
//! the functions that take a received value say what is done with it.

use vstd::prelude::*;

verus! {

/// `flume::Sender`, the sending end of a channel, taken as it is.
#[verifier::external_type_specification]
#[verifier::external_body]
#[verifier::reject_recursive_types(T)]
pub struct ExSender<T>(flume::Sender<T>);

/// `flume::Receiver`, the receiving end of a channel, taken as it is.
#[verifier::external_type_specification]
#[verifier::external_body]
#[verifier::reject_recursive_types(T)]
pub struct ExReceiver<T>(flume::Receiver<T>);

/// `flume::unbounded`: the two ends of a new channel without a limit.
#[verifier::external_body]
pub(crate) fn unbounded<T>() -> (ends: (flume::Sender<T>, flume::Receiver<T>)) {
    flume::unbounded()
}

/// `Clone::clone` of a `flume::Sender`: one more sending end of the same channel.
#[verifier::external_body]
pub(crate) fn clone_sender<T>(sender: &flume::Sender<T>) -> (copy: flume::Sender<T>) {
    sender.clone()
}

/// `flume::Sender::send`: hands `message` to the channel, which never blocks
/// when the channel has no limit. Says whether a receiving end was still there
/// to take it.
#[verifier::external_body]
pub(crate) fn send<T>(sender: &flume::Sender<T>, message: T) -> (delivered: bool) {
    match sender.send(message) {
        Ok(()) => true,
        Err(_) => false,
    }
}

/// `flume::Receiver::try_recv`: a message that waits in the channel, if there
/// is one at this moment. It never waits for one.
#[verifier::external_body]
pub(crate) fn try_receive<T>(receiver: &flume::Receiver<T>) -> (message: Option<T>) {
    match receiver.try_recv() {
        Ok(message) => Some(message),
        Err(_) => None,
    }
}

} // verus!
