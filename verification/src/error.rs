//! The kinds of failure and how far each one reaches.
//!
//! A failed probe touches the health of the probed backend and nothing
//! else. A failure in serving a request ends that request and nothing
//! else; in particular it does not change the health of any backend, which
//! is for the health checker alone to decide. Only the loss of the
//! listener reaches the whole process.

use vstd::prelude::*;

verus! {

/// What can go wrong.
#[derive(Clone, Copy, Debug, PartialEq, Eq, Structural)]
pub enum ErrorKind {
    /// A health probe did not succeed within its timeout.
    ProbeFailure,
    /// The selector found no healthy backend.
    NoHealthyBackend,
    /// The chosen backend refused the connection.
    UpstreamConnectFailure,
    /// The exchange with the chosen backend broke.
    UpstreamStreamFailure,
    /// The listener can accept no more connections.
    ListenerFailure,
}

/// How far a failure reaches.
#[derive(Clone, Copy, Debug, PartialEq, Eq, Structural)]
pub enum Containment {
    /// The health bookkeeping of one backend.
    Backend,
    /// The one request that met it.
    Request,
    /// The whole process.
    Process,
}

impl ErrorKind {
    /// How far this kind of failure reaches.
    pub open spec fn containment(self) -> Containment {
        match self {
            ErrorKind::ProbeFailure => Containment::Backend,
            ErrorKind::NoHealthyBackend => Containment::Request,
            ErrorKind::UpstreamConnectFailure => Containment::Request,
            ErrorKind::UpstreamStreamFailure => Containment::Request,
            ErrorKind::ListenerFailure => Containment::Process,
        }
    }

    /// How far this kind of failure reaches.
    pub fn contained_to(&self) -> (reach: Containment)
        ensures
            reach == self.containment(),
    {
        match self {
            ErrorKind::ProbeFailure => Containment::Backend,
            ErrorKind::NoHealthyBackend => Containment::Request,
            ErrorKind::UpstreamConnectFailure => Containment::Request,
            ErrorKind::UpstreamStreamFailure => Containment::Request,
            ErrorKind::ListenerFailure => Containment::Process,
        }
    }

    /// Whether the service has to stop: only when the listener is lost.
    pub fn is_fatal(&self) -> (fatal: bool)
        ensures
            fatal == (*self == ErrorKind::ListenerFailure),
            fatal == (self.containment() == Containment::Process),
    {
        match self {
            ErrorKind::ListenerFailure => true,
            _ => false,
        }
    }

    /// Whether the client of the request learns of the failure: never of a
    /// failed probe.
    pub fn reaches_client(&self) -> (seen: bool)
        ensures
            seen == (self.containment() == Containment::Request),
    {
        match self {
            ErrorKind::NoHealthyBackend => true,
            ErrorKind::UpstreamConnectFailure => true,
            ErrorKind::UpstreamStreamFailure => true,
            _ => false,
        }
    }
}

} // verus!
