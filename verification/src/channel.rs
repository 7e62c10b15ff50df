//! Trusted declarations for the bounded multi-producer multi-consumer
//! channels that carry the cancellation signal and the progress messages.
//!
//! A channel's contents are shared, interiorly mutable state; nothing is
//! assumed about what a send or receive finds there, only about when the
//! calls return at all.

use vstd::prelude::*;

verus! {

/// Declares async_channel's sending endpoint; its values are carried
/// opaquely.
#[verifier::external_type_specification]
#[verifier::external_body]
#[verifier::reject_recursive_types(T)]
pub struct ExSender<T>(async_channel::Sender<T>);

/// Declares async_channel's receiving endpoint; its values are carried
/// opaquely.
#[verifier::external_type_specification]
#[verifier::external_body]
#[verifier::reject_recursive_types(T)]
pub struct ExReceiver<T>(async_channel::Receiver<T>);

/// Relies on async_channel::bounded: creates a channel that holds at most
/// `cap` messages. Panics when `cap` is zero, so that is required away.
#[verifier::external_body]
pub(crate) fn channel_bounded<T>(cap: usize) -> (async_channel::Sender<T>, async_channel::Receiver<T>)
    requires
        cap >= 1,
{
    async_channel::bounded(cap)
}

/// Relies on async_channel::Sender::try_send: queues the message without
/// blocking; reports whether the channel accepted it (a full or closed
/// channel refuses it).
#[verifier::external_body]
pub(crate) fn channel_try_send<T>(sender: &async_channel::Sender<T>, message: T) -> bool {
    sender.try_send(message).is_ok()
}

/// Relies on async_channel::Sender::send_blocking: blocks until the
/// message is queued; reports whether the channel accepted it (a closed
/// channel refuses it).
#[verifier::external_body]
pub(crate) fn channel_send_blocking<T>(sender: &async_channel::Sender<T>, message: T) -> bool {
    sender.send_blocking(message).is_ok()
}

/// Relies on async_channel::Receiver::try_recv: takes a queued message
/// without blocking; `None` when the channel is empty or closed.
#[verifier::external_body]
pub(crate) fn channel_try_recv<T>(receiver: &async_channel::Receiver<T>) -> Option<T> {
    receiver.try_recv().ok()
}

/// Relies on async_channel::Receiver::recv_blocking: blocks until a
/// message arrives; `None` when the channel is closed and drained.
#[verifier::external_body]
pub(crate) fn channel_recv_blocking<T>(receiver: &async_channel::Receiver<T>) -> Option<T> {
    receiver.recv_blocking().ok()
}

/// Relies on async_channel::Sender::clone: another sending endpoint of the
/// same channel.
#[verifier::external_body]
pub(crate) fn clone_sender<T>(sender: &async_channel::Sender<T>) -> async_channel::Sender<T> {
    sender.clone()
}

/// Relies on async_channel::Receiver::clone: another receiving endpoint of
/// the same channel.
#[verifier::external_body]
pub(crate) fn clone_receiver<T>(receiver: &async_channel::Receiver<T>) -> async_channel::Receiver<
    T,
> {
    receiver.clone()
}

} // verus!
