//! The fixed, ordered set of backends and their live health.
//!
//! Membership and order are decided once, by [`BackendPool::new`]; after
//! that only the health of a member changes. The order is the round-robin
//! order.

use crate::backend::{Backend, BackendAddr, BackendAddrView, BackendView, HealthState, HealthStatus};
use vstd::prelude::*;

verus! {

/// The statically configured backends, in round-robin order.
#[derive(Debug, PartialEq, Eq)]
pub struct PoolConfig {
    pub backends: Vec<BackendAddr>,
}

impl View for PoolConfig {
    type V = Seq<BackendAddrView>;

    open spec fn view(&self) -> Seq<BackendAddrView> {
        Seq::new(self.backends@.len(), |i: int| self.backends@[i]@)
    }
}

impl PoolConfig {
    /// The configuration that lists `backends` in the given order.
    pub fn new(backends: Vec<BackendAddr>) -> (config: PoolConfig)
        ensures
            config@.len() == backends@.len(),
            forall|i: int| 0 <= i < backends@.len() ==> config@[i] == backends@[i]@,
    {
        PoolConfig { backends }
    }
}

/// The pool that [`BackendPool::new`] builds from the addresses `addrs`:
/// one backend per address, in order, each `Healthy` with no probe observed.
pub open spec fn initial_pool(addrs: Seq<BackendAddrView>) -> Seq<BackendView> {
    Seq::new(
        addrs.len(),
        |i: int|
            BackendView { addr: addrs[i], health: HealthState::fresh(HealthStatus::Healthy) },
    )
}

/// For each member, in order, whether it is `Healthy`.
pub open spec fn health_flags(pool: Seq<BackendView>) -> Seq<bool> {
    Seq::new(pool.len(), |i: int| pool[i].is_healthy())
}

/// `pool` with the health of member `index` replaced and all else kept.
pub open spec fn with_health(pool: Seq<BackendView>, index: int, health: HealthState) -> Seq<
    BackendView,
> {
    pool.update(index, BackendView { addr: pool[index].addr, health })
}

/// Both pools hold the same addresses in the same order.
pub open spec fn same_members(a: Seq<BackendView>, b: Seq<BackendView>) -> bool {
    &&& a.len() == b.len()
    &&& forall|i: int| 0 <= i < a.len() ==> (#[trigger] a[i]).addr == b[i].addr
}

/// Why a pool operation was refused.
#[derive(Clone, Copy, Debug, PartialEq, Eq, Structural)]
pub enum PoolError {
    /// The index names no member of the pool.
    NoSuchBackend,
}

/// The backends of the balancer with their current health.
#[derive(Debug)]
pub struct BackendPool {
    backends: Vec<Backend>,
}

impl View for BackendPool {
    type V = Seq<BackendView>;

    closed spec fn view(&self) -> Seq<BackendView> {
        Seq::new(self.backends@.len(), |i: int| self.backends@[i]@)
    }
}

impl BackendPool {
    /// Builds the pool for `config`: every configured backend, in the
    /// configured order, starting out `Healthy`.
    pub fn new(config: &PoolConfig) -> (pool: BackendPool)
        ensures
            pool@ == initial_pool(config@),
    {
        let mut backends: Vec<Backend> = Vec::new();
        let mut i: usize = 0;
        while i < config.backends.len()
            invariant
                i <= config.backends@.len(),
                backends@.len() == i,
                forall|j: int|
                    0 <= j < i ==> (#[trigger] backends@[j])@ == initial_pool(config@)[j],
            decreases config.backends@.len() - i,
        {
            backends.push(Backend::new(config.backends[i].clone()));
            i += 1;
        }
        let pool = BackendPool { backends };
        assert(pool@ =~= initial_pool(config@));
        pool
    }

    /// Number of members.
    pub fn len(&self) -> (n: usize)
        ensures
            n == self@.len(),
    {
        self.backends.len()
    }

    /// `true` exactly when the pool has no member.
    pub fn is_empty(&self) -> (empty: bool)
        ensures
            empty == (self@.len() == 0),
    {
        self.backends.len() == 0
    }

    /// A copy of member `index` as it is now, or `None` past the end.
    pub fn get(&self, index: usize) -> (member: Option<Backend>)
        ensures
            match member {
                Some(backend) => index < self@.len() && backend@ == self@[index as int],
                None => index >= self@.len(),
            },
    {
        if index < self.backends.len() {
            Some(self.backends[index].clone())
        } else {
            None
        }
    }

    /// A copy of the address of member `index`.
    pub(crate) fn addr_of(&self, index: usize) -> (addr: BackendAddr)
        requires
            index < self@.len(),
        ensures
            addr@ == self@[index as int].addr,
    {
        self.backends[index].addr.clone()
    }

    /// Whether `index` names a member that is `Healthy` now.
    pub fn is_healthy(&self, index: usize) -> (healthy: bool)
        ensures
            healthy == (index < self@.len() && self@[index as int].is_healthy()),
    {
        index < self.backends.len() && self.backends[index].is_healthy()
    }

    /// The members in pool order, each with its health as it is now.
    pub fn snapshot(&self) -> (members: Vec<Backend>)
        ensures
            members@.len() == self@.len(),
            forall|i: int| 0 <= i < self@.len() ==> (#[trigger] members@[i])@ == self@[i],
    {
        let mut members: Vec<Backend> = Vec::new();
        let mut i: usize = 0;
        while i < self.backends.len()
            invariant
                i <= self.backends@.len(),
                members@.len() == i,
                forall|j: int| 0 <= j < i ==> (#[trigger] members@[j])@ == self.backends@[j]@,
            decreases self.backends@.len() - i,
        {
            members.push(self.backends[i].clone());
            i += 1;
        }
        members
    }

    /// Sets the status of member `index` and empties both of its runs.
    ///
    /// All other members, and every address, stay as they are. An index
    /// past the end changes nothing and is reported.
    pub fn set_health(&mut self, index: usize, status: HealthStatus) -> (done: Result<
        (),
        PoolError,
    >)
        ensures
            done is Ok <==> index < old(self)@.len(),
            done is Ok ==> final(self)@ == with_health(
                old(self)@,
                index as int,
                HealthState::fresh(status),
            ),
            done is Err ==> final(self)@ == old(self)@,
            same_members(old(self)@, final(self)@),
    {
        if index < self.backends.len() {
            self.backends[index].health = HealthState::new(status);
            assert(self@ =~= with_health(
                old(self)@,
                index as int,
                HealthState::fresh(status),
            ));
            Ok(())
        } else {
            Err(PoolError::NoSuchBackend)
        }
    }

    /// Feeds one probe outcome for member `index` into its state machine
    /// and tells whether the status changed.
    ///
    /// All other members, and every address, stay as they are. An index
    /// past the end changes nothing and is reported.
    pub fn record(
        &mut self,
        index: usize,
        success: bool,
        failure_threshold: u32,
        success_threshold: u32,
    ) -> (flipped: Result<bool, PoolError>)
        ensures
            flipped is Ok <==> index < old(self)@.len(),
            match flipped {
                Ok(changed) => {
                    let before = old(self)@[index as int].health;
                    let after = before.after_probe(success, failure_threshold, success_threshold);
                    &&& final(self)@ == with_health(old(self)@, index as int, after)
                    &&& changed == (after.status != before.status)
                },
                Err(_) => final(self)@ == old(self)@,
            },
            same_members(old(self)@, final(self)@),
    {
        if index < self.backends.len() {
            let before = self.backends[index].health;
            let after = before.observe(success, failure_threshold, success_threshold);
            self.backends[index].health = after;
            assert(self@ =~= with_health(old(self)@, index as int, after));
            Ok(after.status != before.status)
        } else {
            Err(PoolError::NoSuchBackend)
        }
    }
}

} // verus!
