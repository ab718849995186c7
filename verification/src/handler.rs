//! The life of one client connection.
//!
//! ```text
//! Accepted --Selected(Backend b)--> BackendSelected(b) --Connected--> Forwarding(b)
//!     |                                   |                               |
//!     | Selected(Unavailable)             | ConnectFailed                 | StreamClosed: Closed
//!     v                                   v                               | StreamFailed: Failed
//!   Closed (nothing served)             Failed                            v
//! ```
//!
//! The handler decides; the caller acts. Each event is answered with the
//! next state and with the one action the caller has to perform. `Closed`
//! and `Failed` are final: no event leads out of them, so a connection is
//! never given a second backend.

use crate::error::{Containment, ErrorKind};
use crate::selector::Selection;
use vstd::prelude::*;

verus! {

/// What became of a connection, once it is over.
#[derive(Clone, Copy, Debug, PartialEq, Eq, Structural)]
pub enum Outcome {
    /// A backend served the connection and the exchange ended cleanly.
    Success,
    /// No backend was healthy; the client was told so.
    Unavailable,
    /// The chosen backend could not be reached, or the exchange broke.
    Failure,
}

/// What the caller reports to the handler.
#[derive(Clone, Copy, Debug, PartialEq, Eq, Structural)]
pub enum ConnEvent {
    /// The selector has answered.
    Selected(Selection),
    /// The connection to the chosen backend is open.
    Connected,
    /// The connection to the chosen backend could not be opened.
    ConnectFailed,
    /// Either direction of the exchange closed cleanly.
    StreamClosed,
    /// Either direction of the exchange ended with an error.
    StreamFailed,
}

/// What the handler asks the caller to do next.
#[derive(Clone, Copy, Debug, PartialEq, Eq, Structural)]
pub enum ConnAction {
    /// Open a connection to this pool member, under the configured host name.
    Connect(usize),
    /// Answer the client that the service is unavailable, then close.
    RespondUnavailable,
    /// Stream the request to the backend and the response back.
    Forward,
    /// Close the client side and the backend side.
    CloseBoth,
}

/// Where the exchange with the chosen backend broke.
#[derive(Clone, Copy, Debug, PartialEq, Eq, Structural)]
pub enum UpstreamFailure {
    /// The connection to the backend could not be opened.
    Connect,
    /// The connection was open and the exchange broke.
    Stream,
}

/// The state of one client connection.
#[derive(Clone, Copy, Debug, PartialEq, Eq)]
pub enum Connection {
    /// Accepted from the listener; no backend asked for yet.
    Accepted,
    /// A backend is chosen; the connection to it is being opened.
    BackendSelected { backend: usize },
    /// Bytes flow between the client and the backend.
    Forwarding { backend: usize },
    /// Over without an error: the backend `served` took the connection
    /// to its end, or, with `None`, no backend was available and the
    /// client was told so.
    Closed { served: Option<usize> },
    /// Over with an error in reaching or talking to `backend`.
    Failed { backend: usize, failure: UpstreamFailure },
}

impl Connection {
    /// No event leads out of this state.
    pub open spec fn terminal(self) -> bool {
        self is Closed || self is Failed
    }

    /// The backend this connection was given, if it was given one.
    pub open spec fn chosen(self) -> Option<usize> {
        match self {
            Connection::Accepted => None,
            Connection::BackendSelected { backend } => Some(backend),
            Connection::Forwarding { backend } => Some(backend),
            Connection::Closed { served } => served,
            Connection::Failed { backend, .. } => Some(backend),
        }
    }

    /// The error that ended the connection, if one did.
    pub open spec fn error(self) -> Option<ErrorKind> {
        match self {
            Connection::Closed { served: None } => Some(ErrorKind::NoHealthyBackend),
            Connection::Failed { failure: UpstreamFailure::Connect, .. } => Some(
                ErrorKind::UpstreamConnectFailure,
            ),
            Connection::Failed { failure: UpstreamFailure::Stream, .. } => Some(
                ErrorKind::UpstreamStreamFailure,
            ),
            _ => None,
        }
    }

    /// What became of the connection; `None` while it is not over.
    pub open spec fn result(self) -> Option<Outcome> {
        match self {
            Connection::Closed { served: Some(_) } => Some(Outcome::Success),
            Connection::Closed { served: None } => Some(Outcome::Unavailable),
            Connection::Failed { .. } => Some(Outcome::Failure),
            _ => None,
        }
    }

    /// The transition table: the next state and the action for `event` in
    /// this state, or `None` where the event has no place in this state.
    pub open spec fn transition(self, event: ConnEvent) -> Option<(Connection, ConnAction)> {
        match (self, event) {
            (Connection::Accepted, ConnEvent::Selected(Selection::Backend(backend))) => Some(
                (Connection::BackendSelected { backend }, ConnAction::Connect(backend)),
            ),
            (Connection::Accepted, ConnEvent::Selected(Selection::Unavailable)) => Some(
                (Connection::Closed { served: None }, ConnAction::RespondUnavailable),
            ),
            (Connection::BackendSelected { backend }, ConnEvent::Connected) => Some(
                (Connection::Forwarding { backend }, ConnAction::Forward),
            ),
            (Connection::BackendSelected { backend }, ConnEvent::ConnectFailed) => Some(
                (
                    Connection::Failed { backend, failure: UpstreamFailure::Connect },
                    ConnAction::CloseBoth,
                ),
            ),
            (Connection::Forwarding { backend }, ConnEvent::StreamClosed) => Some(
                (Connection::Closed { served: Some(backend) }, ConnAction::CloseBoth),
            ),
            (Connection::Forwarding { backend }, ConnEvent::StreamFailed) => Some(
                (
                    Connection::Failed { backend, failure: UpstreamFailure::Stream },
                    ConnAction::CloseBoth,
                ),
            ),
            _ => None,
        }
    }

    /// The state of a connection that was just accepted.
    pub fn accepted() -> (conn: Connection)
        ensures
            conn == Connection::Accepted,
    {
        Connection::Accepted
    }

    /// Whether the connection is over.
    pub fn is_terminal(&self) -> (over: bool)
        ensures
            over == self.terminal(),
    {
        match self {
            Connection::Closed { .. } => true,
            Connection::Failed { .. } => true,
            _ => false,
        }
    }

    /// The backend this connection was given, if it was given one.
    pub fn backend(&self) -> (backend: Option<usize>)
        ensures
            backend == self.chosen(),
    {
        match self {
            Connection::Accepted => None,
            Connection::BackendSelected { backend } => Some(*backend),
            Connection::Forwarding { backend } => Some(*backend),
            Connection::Closed { served } => *served,
            Connection::Failed { backend, .. } => Some(*backend),
        }
    }

    /// The error that ended the connection, if one did.
    pub fn error_kind(&self) -> (kind: Option<ErrorKind>)
        ensures
            kind == self.error(),
    {
        match self {
            Connection::Closed { served: None } => Some(ErrorKind::NoHealthyBackend),
            Connection::Failed { failure: UpstreamFailure::Connect, .. } => Some(
                ErrorKind::UpstreamConnectFailure,
            ),
            Connection::Failed { failure: UpstreamFailure::Stream, .. } => Some(
                ErrorKind::UpstreamStreamFailure,
            ),
            _ => None,
        }
    }

    /// What became of the connection; `None` while it is not over.
    pub fn outcome(&self) -> (outcome: Option<Outcome>)
        ensures
            outcome == self.result(),
    {
        match self {
            Connection::Closed { served: Some(_) } => Some(Outcome::Success),
            Connection::Closed { served: None } => Some(Outcome::Unavailable),
            Connection::Failed { .. } => Some(Outcome::Failure),
            _ => None,
        }
    }

    /// Takes `event` in: moves to the next state and returns the action
    /// to perform. An event that has no place in the current state is
    /// answered with `None` and changes nothing.
    pub fn step(&mut self, event: ConnEvent) -> (action: Option<ConnAction>)
        ensures
            match old(self).transition(event) {
                Some((next, act)) => *final(self) == next && action == Some(act),
                None => *final(self) == *old(self) && action is None,
            },
    {
        let current = *self;
        match (current, event) {
            (Connection::Accepted, ConnEvent::Selected(Selection::Backend(backend))) => {
                *self = Connection::BackendSelected { backend };
                Some(ConnAction::Connect(backend))
            },
            (Connection::Accepted, ConnEvent::Selected(Selection::Unavailable)) => {
                *self = Connection::Closed { served: None };
                Some(ConnAction::RespondUnavailable)
            },
            (Connection::BackendSelected { backend }, ConnEvent::Connected) => {
                *self = Connection::Forwarding { backend };
                Some(ConnAction::Forward)
            },
            (Connection::BackendSelected { backend }, ConnEvent::ConnectFailed) => {
                *self = Connection::Failed { backend, failure: UpstreamFailure::Connect };
                Some(ConnAction::CloseBoth)
            },
            (Connection::Forwarding { backend }, ConnEvent::StreamClosed) => {
                *self = Connection::Closed { served: Some(backend) };
                Some(ConnAction::CloseBoth)
            },
            (Connection::Forwarding { backend }, ConnEvent::StreamFailed) => {
                *self = Connection::Failed { backend, failure: UpstreamFailure::Stream };
                Some(ConnAction::CloseBoth)
            },
            _ => None,
        }
    }
}

/// `Closed` and `Failed` are final: no event leads out of them.
pub proof fn lemma_terminal_is_final(conn: Connection, event: ConnEvent)
    requires
        conn.terminal(),
    ensures
        conn.transition(event) is None,
{
}

/// A connection keeps the backend it was given: no transition replaces
/// one backend by another or takes it away.
pub proof fn lemma_no_reselection(conn: Connection, event: ConnEvent)
    requires
        conn.chosen() is Some,
        conn.transition(event) is Some,
    ensures
        conn.transition(event) matches Some((next, _)) && next.chosen() == conn.chosen(),
{
}

/// A connection has an outcome exactly when it is over, and every
/// transition into a final state asks the caller to close or to answer
/// that the service is unavailable; the latter exactly when the selector
/// found no healthy backend.
pub proof fn lemma_outcome_when_over(conn: Connection, event: ConnEvent)
    ensures
        conn.result() is Some <==> conn.terminal(),
        conn.error() is Some <==> conn.terminal() && conn.result() != Some(Outcome::Success),
        conn.error() matches Some(kind) ==> kind.containment() == Containment::Request,
        conn.transition(event) matches Some((next, action)) ==> {
            &&& next.terminal() ==> action == ConnAction::CloseBoth || action
                == ConnAction::RespondUnavailable
            &&& action == ConnAction::RespondUnavailable <==> next.result() == Some(
                Outcome::Unavailable,
            )
            &&& next.result() == Some(Outcome::Unavailable) <==> conn == Connection::Accepted
                && event == ConnEvent::Selected(Selection::Unavailable)
        },
{
}

} // verus!
