//! The channel on which the host answers a request.

use vstd::prelude::*;

verus! {

/// `tokio::sync::oneshot::Sender`, the end of the channel that the answer goes into.
#[verifier::external_type_specification]
#[verifier::external_body]
#[verifier::reject_recursive_types(T)]
pub struct ExSender<T>(tokio::sync::oneshot::Sender<T>);

/// `tokio::sync::oneshot::Receiver`, the end of the channel that the answer comes out of.
#[verifier::external_type_specification]
#[verifier::external_body]
#[verifier::reject_recursive_types(T)]
pub struct ExReceiver<T>(tokio::sync::oneshot::Receiver<T>);

/// `tokio::sync::oneshot::error::RecvError`, what comes out where the other end is gone.
#[verifier::external_type_specification]
#[verifier::external_body]
pub struct ExRecvError(tokio::sync::oneshot::error::RecvError);

/// `tokio::sync::oneshot::channel` makes a channel for one value and gives out both of its ends. Each
/// call makes a new one, so no clause speaks of the ends: that two ends belong together is to say that
/// one call may have given out both.
pub assume_specification<T>[ tokio::sync::oneshot::channel::<T> ]() -> (ends: (
    tokio::sync::oneshot::Sender<T>,
    tokio::sync::oneshot::Receiver<T>,
));

/// Whether two ends belong to one channel: one call may have given out both.
pub open spec fn one_channel<P>(
    response_tx: tokio::sync::oneshot::Sender<P>,
    response_rx: tokio::sync::oneshot::Receiver<P>,
) -> bool {
    call_ensures(tokio::sync::oneshot::channel::<P>, (), (response_tx, response_rx))
}

/// What one call of `make` gives.
fn made_by_one_call<A, F: Fn() -> A>(make: F) -> (made: A)
    requires
        call_requires(make, ()),
    ensures
        call_ensures(make, (), made),
{
    make()
}

/// Both ends of a new channel.
pub(crate) fn reply_channel<P>() -> (ends: (
    tokio::sync::oneshot::Sender<P>,
    tokio::sync::oneshot::Receiver<P>,
))
    ensures
        one_channel(ends.0, ends.1),
{
    made_by_one_call(tokio::sync::oneshot::channel::<P>)
}

} // verus!
