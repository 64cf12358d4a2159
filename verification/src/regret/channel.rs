//! The unbounded channels of the `crossbeam_channel` crate, over which agents
//! and shard owners talk. What travels over a channel depends on the other
//! threads, so nothing is claimed of what a call returns.

use vstd::prelude::*;

verus! {

/// `crossbeam_channel::Sender`, the sending end of a channel. Nothing is
/// known of what it holds.
#[verifier::external_type_specification]
#[verifier::external_body]
#[verifier::reject_recursive_types(T)]
pub struct ExSender<T>(crossbeam_channel::Sender<T>);

/// `crossbeam_channel::Receiver`, the receiving end of a channel. Nothing is
/// known of what it holds.
#[verifier::external_type_specification]
#[verifier::external_body]
#[verifier::reject_recursive_types(T)]
pub struct ExReceiver<T>(crossbeam_channel::Receiver<T>);

/// `crossbeam_channel::unbounded` makes a channel without a limit and
/// returns its two ends. Nothing is claimed of them.
pub assume_specification<T>[ crossbeam_channel::unbounded::<T> ]() -> (ends: (
    crossbeam_channel::Sender<T>,
    crossbeam_channel::Receiver<T>,
))
;

/// `crossbeam_channel::Sender::try_send` puts a message into the channel
/// without blocking. The result says whether the channel took it; it does
/// not where all receivers are gone. Which of the two happens is left open.
#[verifier::external_body]
pub(crate) fn try_send<T>(sender: &crossbeam_channel::Sender<T>, message: T) -> (sent: bool) {
    match sender.try_send(message) {
        Ok(()) => true,
        Err(_) => false,
    }
}

/// `crossbeam_channel::Sender::send` puts a message into the channel. The
/// result says whether the channel took it; it does not where all receivers
/// are gone. Which of the two happens is left open.
#[verifier::external_body]
pub(crate) fn send<T>(sender: &crossbeam_channel::Sender<T>, message: T) -> (sent: bool) {
    match sender.send(message) {
        Ok(()) => true,
        Err(_) => false,
    }
}

/// `crossbeam_channel::Receiver::recv` waits for the next message. It
/// returns `None` where the channel is empty and all senders are gone, and
/// does not return while it is empty and a sender lives. Which message
/// comes is left open.
#[verifier::external_body]
pub(crate) fn recv<T>(receiver: &crossbeam_channel::Receiver<T>) -> (message: Option<T>) {
    match receiver.recv() {
        Ok(message) => Some(message),
        Err(_) => None,
    }
}

/// `Clone::clone` of `crossbeam_channel::Sender` makes one more sending end
/// of the same channel. Nothing is claimed of it.
#[verifier::external_body]
pub(crate) fn another_sender<T>(sender: &crossbeam_channel::Sender<T>) -> (copy:
    crossbeam_channel::Sender<T>) {
    sender.clone()
}

} // verus!
