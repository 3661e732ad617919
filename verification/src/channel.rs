//! The trusted boundary around crossbeam_channel: the two channel
//! halves declared for the verifier, and one wrapper per channel
//! function the dispatcher and the workers call. What a channel
//! carries at run time depends on every thread that holds an end of
//! it, so the wrappers promise nothing about message contents; the
//! logic around them is verified for every message that can arrive.

use crate::processor::ProcessorError;
use vstd::prelude::*;

verus! {

/// crossbeam_channel's sending half, opaque to the verifier.
#[verifier::external_type_specification]
#[verifier::external_body]
#[verifier::reject_recursive_types(T)]
pub struct ExSender<T>(crossbeam_channel::Sender<T>);

/// crossbeam_channel's receiving half, opaque to the verifier.
#[verifier::external_type_specification]
#[verifier::external_body]
#[verifier::reject_recursive_types(T)]
pub struct ExReceiver<T>(crossbeam_channel::Receiver<T>);

/// Relies on crossbeam_channel::bounded: a channel that holds at most
/// `cap` messages at once and hands them out in the order they were
/// sent; with `cap` zero, a rendezvous where a send waits for a recv.
#[verifier::external_body]
pub(crate) fn channel_bounded<T>(cap: usize) -> (r: (
    crossbeam_channel::Sender<T>,
    crossbeam_channel::Receiver<T>,
)) {
    crossbeam_channel::bounded(cap)
}

/// Relies on crossbeam_channel::Sender::send: blocks while the channel
/// is full, and fails only once every receiver is gone.
#[verifier::external_body]
pub(crate) fn channel_send<T>(sender: &crossbeam_channel::Sender<T>, msg: T) -> (r: Result<
    (),
    ProcessorError,
>)
    ensures
        r matches Err(e) ==> e == ProcessorError::ChannelClosed,
{
    match sender.send(msg) {
        Ok(()) => Ok(()),
        Err(_) => Err(ProcessorError::ChannelClosed),
    }
}

/// Relies on crossbeam_channel::Receiver::recv: blocks until a message
/// arrives, and fails only once the channel is empty and every sender
/// is gone.
#[verifier::external_body]
pub(crate) fn channel_recv<T>(receiver: &crossbeam_channel::Receiver<T>) -> (r: Result<
    T,
    ProcessorError,
>)
    ensures
        r matches Err(e) ==> e == ProcessorError::ChannelClosed,
{
    match receiver.recv() {
        Ok(msg) => Ok(msg),
        Err(_) => Err(ProcessorError::ChannelClosed),
    }
}

} // verus!
