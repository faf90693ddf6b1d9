use vstd::prelude::*;

use tokio::sync::oneshot::error::RecvError;

use crate::services::ServiceId;

verus! {

/// The failure of a reply channel that closed without an answer (tokio's `oneshot` channel).
#[verifier::external_type_specification]
#[verifier::external_body]
pub struct ExRecvError(tokio::sync::oneshot::error::RecvError);

/// Errors of relay connections between services.
#[derive(Debug)]
pub enum RelayError {
    /// A relay to the `to` service was requested and could not be set up.
    InvalidRequest { to: ServiceId },
    /// A message could not be relayed.
    Send,
    /// The relay of the service was already handed out, or the service is not running.
    AlreadyConnected,
    /// The relay is not connected yet.
    Disconnected,
    /// No service with this identification is part of the application.
    Unavailable { service_id: ServiceId },
    /// The reply to a relay request did not hold a relay for the service's message type.
    InvalidMessage { type_id: String, service_id: ServiceId },
    /// The reply channel of a relay request failed; holds the failure.
    Receiver(RecvError),
}

/// Marker for the message types that relays carry.
pub trait RelayMessage: 'static {}

/// The message type of services that receive no messages.
#[derive(Debug, Clone, Copy)]
pub struct NoMessage;

impl RelayMessage for NoMessage {}

impl RelayMessage for () {}

/// Connection state of one end of a relay: `Pending` holds what is needed to complete the
/// connection, `Ready` holds the connected end.
pub enum RelayState<C, R> {
    Pending(C),
    Ready(R),
}

impl<C, R> RelayState<C, R> {
    /// The connected end, or `Disconnected` while the connection is still pending.
    pub fn inner_relay(&self) -> (r: Result<&R, RelayError>)
        ensures
            match self {
                RelayState::Pending(_) => r matches Err(RelayError::Disconnected),
                RelayState::Ready(relay) => r == Ok::<&R, RelayError>(relay),
            },
    {
        match self {
            RelayState::Pending(_) => Err(RelayError::Disconnected),
            RelayState::Ready(relay) => Ok(relay),
        }
    }

    /// Takes the connected end out of a state that is known to be connected.
    pub fn into_inner_relay(self) -> (r: R)
        requires
            self is Ready,
        ensures
            self == RelayState::<C, R>::Ready(r),
    {
        match self {
            RelayState::Ready(relay) => relay,
            RelayState::Pending(_) => vstd::pervasive::unreached(),
        }
    }

    /// Completes a connection with a freshly built end `fresh`. A pending state becomes ready
    /// with `fresh`, and hands back what it held, so that the other end of `fresh` can be
    /// delivered through it; a state that is ready already stays as it is, and `fresh` is
    /// dropped.
    pub fn connect(self, fresh: R) -> (r: (Self, Option<C>))
        ensures
            r == connected(self, fresh),
    {
        match self {
            RelayState::Pending(c) => (RelayState::Ready(fresh), Some(c)),
            RelayState::Ready(relay) => (RelayState::Ready(relay), None),
        }
    }
}

/// The state after connecting with a fresh end, and what a pending state held.
pub open spec fn connected<C, R>(state: RelayState<C, R>, fresh: R) -> (RelayState<C, R>, Option<C>) {
    match state {
        RelayState::Pending(c) => (RelayState::Ready(fresh), Some(c)),
        RelayState::Ready(relay) => (RelayState::Ready(relay), None),
    }
}

/// After a connection the relay is available, and connecting again changes nothing: the
/// relay of the first connection stays, and nothing more is handed back.
pub proof fn lemma_connect_is_idempotent<C, R>(state: RelayState<C, R>, fresh: R, other: R)
    ensures
        connected(state, fresh).0 is Ready,
        connected(connected(state, fresh).0, other) == (
            connected(state, fresh).0,
            None::<C>,
        ),
{
}

/// The answer a relay request gets back from the runner.
#[derive(Debug)]
pub enum RelayReply<R> {
    /// A connected relay of the expected message type.
    Relay(R),
    /// Something that is not a relay of the expected message type; the text names its type.
    WrongType(String),
    /// The runner refused the request.
    Refused(RelayError),
    /// The reply channel closed without an answer.
    NoReply(RecvError),
}

/// The outcome of a relay request to the service `service_id`, from the answer it got.
pub open spec fn relay_outcome<R>(reply: RelayReply<R>, service_id: ServiceId) -> Result<R, RelayError> {
    match reply {
        RelayReply::Relay(r) => Ok(r),
        RelayReply::WrongType(type_id) => Err(RelayError::InvalidMessage { type_id, service_id }),
        RelayReply::Refused(e) => Err(e),
        RelayReply::NoReply(cause) => Err(RelayError::Receiver(cause)),
    }
}

/// Turns the answer to a relay request into the relay or the error the requester sees.
pub fn resolve_relay_reply<R>(reply: RelayReply<R>, service_id: ServiceId) -> (r: Result<
    R,
    RelayError,
>)
    ensures
        r == relay_outcome(reply, service_id),
{
    match reply {
        RelayReply::Relay(relay) => Ok(relay),
        RelayReply::WrongType(type_id) => Err(RelayError::InvalidMessage { type_id, service_id }),
        RelayReply::Refused(e) => Err(e),
        RelayReply::NoReply(cause) => Err(RelayError::Receiver(cause)),
    }
}

} // verus!
