//! The load balancer as the proxy sees it: the pool, the round-robin
//! cursor and the host name under which backends are addressed.
//!
//! Serving a request only reads the pool. Health changes come from the
//! health checker alone, through [`LB::pool`].

use crate::backend::{BackendAddr, BackendAddrView};
use crate::handler::{ConnAction, ConnEvent, Connection};
use crate::pool::{health_flags, BackendPool, PoolConfig, initial_pool};
use crate::selector::{next_cursor, pick, Selection, Selector};
use vstd::prelude::*;

verus! {

/// Where and how to open the upstream connection for one request.
#[derive(Debug, PartialEq, Eq)]
pub struct Peer {
    /// Address of the chosen backend.
    pub addr: BackendAddr,
    /// Whether to speak TLS to the backend; always `false`.
    pub tls: bool,
    /// Host name presented to the backend in place of the one the client
    /// used.
    pub sni: String,
}

/// Mathematical value of a [`Peer`].
pub struct PeerView {
    pub addr: BackendAddrView,
    pub tls: bool,
    pub sni: Seq<char>,
}

impl View for Peer {
    type V = PeerView;

    open spec fn view(&self) -> PeerView {
        PeerView { addr: self.addr@, tls: self.tls, sni: self.sni@ }
    }
}

/// Why a request was given no upstream peer.
#[derive(Clone, Copy, Debug, PartialEq, Eq, Structural)]
pub enum UpstreamError {
    /// No backend is healthy; the client is to be told that the service
    /// is unavailable.
    NoHealthyBackend,
    /// The connection is past the point where a backend is chosen.
    NotAccepted,
}

/// The load balancer.
#[derive(Debug)]
pub struct LB {
    /// The backends and their health.
    pub pool: BackendPool,
    /// The round-robin cursor.
    pub selector: Selector,
    /// Host name presented to every backend.
    pub upstream_host: String,
}

impl LB {
    /// A balancer over the configured backends, all of them `Healthy`,
    /// with the cursor at the head of the pool.
    pub fn new(config: &PoolConfig, upstream_host: String) -> (lb: LB)
        ensures
            lb.pool@ == initial_pool(config@),
            lb.selector@ == 0,
            lb.upstream_host@ == upstream_host@,
    {
        LB { pool: BackendPool::new(config), selector: Selector::new(), upstream_host }
    }

    /// The state of a connection that was just accepted.
    pub fn new_ctx(&self) -> (ctx: Connection)
        ensures
            ctx == Connection::Accepted,
    {
        Connection::accepted()
    }

    /// Chooses the backend for an accepted connection and says how to
    /// reach it.
    ///
    /// On an `Accepted` connection this takes one round-robin turn. With a
    /// healthy backend the connection moves to `BackendSelected` and the
    /// result is that backend's address, without TLS, under the
    /// configured host name. With none, the connection is `Closed` as
    /// unavailable, the cursor stays, and the result is
    /// `NoHealthyBackend`. There is no second try.
    ///
    /// On a connection in any other state nothing changes and the result
    /// is `NotAccepted`.
    ///
    /// The pool is only read: no request changes the health of a backend.
    pub fn upstream_peer(&mut self, ctx: &mut Connection) -> (peer: Result<Peer, UpstreamError>)
        ensures
            final(self).pool@ == old(self).pool@,
            final(self).upstream_host@ == old(self).upstream_host@,
            peer is Ok <==> *old(ctx) == Connection::Accepted && exists|i: int|
                0 <= i < old(self).pool@.len() && (#[trigger] old(self).pool@[i]).is_healthy(),
            match peer {
                Ok(peer) => {
                    &&& *old(ctx) == Connection::Accepted
                    &&& pick(health_flags(old(self).pool@), old(self).selector@) matches Some(
                        index,
                    )
                    &&& 0 <= index < old(self).pool@.len()
                    &&& old(self).pool@[index].is_healthy()
                    &&& *final(ctx) == (Connection::BackendSelected { backend: index as usize })
                    &&& peer@ == (PeerView {
                        addr: old(self).pool@[index].addr,
                        tls: false,
                        sni: old(self).upstream_host@,
                    })
                    &&& final(self).selector@ == next_cursor(
                        health_flags(old(self).pool@),
                        old(self).selector@,
                    )
                },
                Err(UpstreamError::NoHealthyBackend) => {
                    &&& *old(ctx) == Connection::Accepted
                    &&& forall|i: int|
                        0 <= i < old(self).pool@.len() ==> !(#[trigger] old(
                            self,
                        ).pool@[i]).is_healthy()
                    &&& *final(ctx) == (Connection::Closed { served: None })
                    &&& final(self).selector@ == old(self).selector@
                },
                Err(UpstreamError::NotAccepted) => {
                    &&& *old(ctx) != Connection::Accepted
                    &&& *final(ctx) == *old(ctx)
                    &&& final(self).selector@ == old(self).selector@
                },
            },
    {
        match *ctx {
            Connection::Accepted => {},
            _ => {
                return Err(UpstreamError::NotAccepted);
            },
        }
        let selection = self.selector.select(&self.pool);
        let action = ctx.step(ConnEvent::Selected(selection));
        match selection {
            Selection::Backend(index) => {
                assert(action == Some(ConnAction::Connect(index)));
                Ok(
                    Peer {
                        addr: self.pool.addr_of(index),
                        tls: false,
                        sni: self.upstream_host.clone(),
                    },
                )
            },
            Selection::Unavailable => {
                assert(action == Some(ConnAction::RespondUnavailable));
                Err(UpstreamError::NoHealthyBackend)
            },
        }
    }
}

} // verus!
