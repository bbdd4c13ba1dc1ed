//! The bounded chunk channels that carry pushed payloads to open streams.
use crate::state::Listener;
use vstd::prelude::*;

verus! {

#[verifier::external_type_specification]
#[verifier::external_body]
#[verifier::reject_recursive_types(T)]
pub struct ExSender<T>(tokio::sync::mpsc::Sender<T>);

#[verifier::external_type_specification]
#[verifier::external_body]
#[verifier::reject_recursive_types(T)]
pub struct ExReceiver<T>(tokio::sync::mpsc::Receiver<T>);

/// The largest capacity a channel can have (tokio's `Semaphore::MAX_PERMITS`).
pub const MAX_CAPACITY: usize = usize::MAX >> 3;

/// Relies on tokio::sync::mpsc::channel, which panics on a capacity of zero
/// or above `MAX_CAPACITY`.
pub assume_specification<T>[ tokio::sync::mpsc::channel::<T> ](buffer: usize) -> (
    tokio::sync::mpsc::Sender<T>,
    tokio::sync::mpsc::Receiver<T>,
)
    requires
        0 < buffer <= MAX_CAPACITY,
;

/// Relies on tokio::sync::mpsc::Sender::is_closed: whether the receiving end
/// has gone, which depends on the other side only.
pub assume_specification<T>[ tokio::sync::mpsc::Sender::<T>::is_closed ](
    tx: &tokio::sync::mpsc::Sender<T>,
) -> bool;

/// Relies on tokio::sync::mpsc::Sender::try_send: queues the chunk on the
/// listener's channel without waiting, or reports a full or closed channel.
/// Either way the chunk has been offered, which the listener's log records.
#[verifier::external_body]
pub(crate) fn offer_chunk(l: &mut Listener, chunk: Vec<u8>) -> (sent: bool)
    ensures
        final(l).offered@ == old(l).offered@.push(chunk@),
        final(l).sender == old(l).sender,
        final(l).owner == old(l).owner,
{
    l.sender.try_send(chunk).is_ok()
}

} // verus!
