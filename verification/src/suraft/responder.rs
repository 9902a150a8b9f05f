//! How the node answers a write of the application once it is done.

use vstd::prelude::*;

use crate::errors::ForwardToLeader;
use crate::storage::log::log_id::LogId;

verus! {

/// The result of a write: the log id it was stored at, or the leader to ask.
pub type WriteResult = Result<LogId, ForwardToLeader>;

/// The sending half of a `tokio` one-shot channel.
#[verifier::external_type_specification]
#[verifier::external_body]
#[verifier::reject_recursive_types(T)]
pub struct ExOneshotSender<T>(tokio::sync::oneshot::Sender<T>);

/// The receiving half of a `tokio` one-shot channel.
#[verifier::external_type_specification]
#[verifier::external_body]
#[verifier::reject_recursive_types(T)]
pub struct ExOneshotReceiver<T>(tokio::sync::oneshot::Receiver<T>);

/// The error of a receiver whose sender went away without sending.
#[verifier::external_type_specification]
#[verifier::external_body]
pub struct ExOneshotRecvError(tokio::sync::oneshot::error::RecvError);

/// `tokio::sync::oneshot::channel`: a new channel, as its two halves.
#[verifier::external_body]
fn oneshot_channel<T>() -> (r: (tokio::sync::oneshot::Sender<T>, tokio::sync::oneshot::Receiver<T>)) {
    tokio::sync::oneshot::channel()
}

/// `tokio::sync::oneshot::Sender::send`: sends `t`, or hands it back where
/// the receiver is gone. Whether the receiver is still there is not stated.
#[verifier::external_body]
fn oneshot_send<T>(tx: tokio::sync::oneshot::Sender<T>, t: T) -> (r: Result<(), T>)
    ensures
        match r {
            Err(x) => x == t,
            Ok(_) => true,
        },
{
    tx.send(t)
}

/// A means for the node to send the result of a write back to the
/// application, created for each write.
pub trait Responder<D>: Sized {
    /// What the application waits on for the result, if anything.
    type Receiver;

    /// The responder for a write of `app_data`, and what to wait on.
    fn from_app_data(app_data: D) -> (D, Self, Self::Receiver);

    /// Sends the result of the write.
    fn send(self, result: WriteResult);
}

/// A responder that sends the result through a one-shot channel.
#[derive(Debug)]
pub struct OneshotResponder {
    tx: tokio::sync::oneshot::Sender<WriteResult>,
}

impl OneshotResponder {
    /// The channel the result goes through.
    pub closed spec fn sender(&self) -> tokio::sync::oneshot::Sender<WriteResult> {
        self.tx
    }

    /// A responder that sends through `tx`.
    pub fn new(tx: tokio::sync::oneshot::Sender<WriteResult>) -> (r: Self)
        ensures
            r.sender() == tx,
    {
        OneshotResponder { tx }
    }
}

impl<D> Responder<D> for OneshotResponder {
    type Receiver = tokio::sync::oneshot::Receiver<WriteResult>;

    fn from_app_data(app_data: D) -> (r: (D, Self, Self::Receiver))
        ensures
            r.0 == app_data,
    {
        let (tx, rx) = oneshot_channel();
        (app_data, OneshotResponder { tx }, rx)
    }

    fn send(self, result: WriteResult) {
        let _ = oneshot_send(self.tx, result);
    }
}

} // verus!
