//! A single upstream server and its health bookkeeping.
//!
//! A backend is a network address together with a [`HealthState`]: the
//! current status and the lengths of the current runs of failed and of
//! successful probes. The state changes only by [`HealthState::observe`],
//! which is the per-backend state machine
//!
//! ```text
//! Healthy   --(failure_threshold consecutive failures)--> Unhealthy
//! Unhealthy --(success_threshold consecutive successes)--> Healthy
//! ```

use vstd::prelude::*;

verus! {

/// Whether a backend is currently eligible to receive traffic.
#[derive(Clone, Copy, Debug, PartialEq, Eq, Structural)]
pub enum HealthStatus {
    Healthy,
    Unhealthy,
}

impl HealthStatus {
    /// `true` exactly for `Healthy`.
    pub fn is_healthy(&self) -> (healthy: bool)
        ensures
            healthy == (*self == HealthStatus::Healthy),
    {
        match self {
            HealthStatus::Healthy => true,
            HealthStatus::Unhealthy => false,
        }
    }
}

/// A run length one longer than `count`, held at `u32::MAX` once reached.
pub open spec fn bump(count: u32) -> u32 {
    if count < u32::MAX {
        (count + 1) as u32
    } else {
        u32::MAX
    }
}

/// Status of one backend and the length of its current run of probe outcomes.
///
/// `consecutive_failures` counts the failed probes since the last success
/// (or since the status was last set by hand), `consecutive_successes` the
/// successful probes since the last failure. Both saturate at `u32::MAX`.
#[derive(Clone, Copy, Debug, PartialEq, Eq, Structural)]
pub struct HealthState {
    pub status: HealthStatus,
    pub consecutive_failures: u32,
    pub consecutive_successes: u32,
}

impl HealthState {
    /// The state with the given status and both runs empty.
    pub open spec fn fresh(status: HealthStatus) -> HealthState {
        HealthState { status, consecutive_failures: 0, consecutive_successes: 0 }
    }

    /// At most one of the two runs is non-empty.
    pub open spec fn wf(self) -> bool {
        self.consecutive_failures == 0 || self.consecutive_successes == 0
    }

    /// The state after one more probe outcome.
    ///
    /// A success ends the run of failures and lengthens the run of
    /// successes; once that run has reached `success_threshold` the status
    /// is `Healthy`. A failure does the converse against
    /// `failure_threshold`. Below the threshold the status is kept.
    pub open spec fn after_probe(
        self,
        success: bool,
        failure_threshold: u32,
        success_threshold: u32,
    ) -> HealthState {
        if success {
            let run = bump(self.consecutive_successes);
            HealthState {
                status: if run >= success_threshold {
                    HealthStatus::Healthy
                } else {
                    self.status
                },
                consecutive_failures: 0,
                consecutive_successes: run,
            }
        } else {
            let run = bump(self.consecutive_failures);
            HealthState {
                status: if run >= failure_threshold {
                    HealthStatus::Unhealthy
                } else {
                    self.status
                },
                consecutive_failures: run,
                consecutive_successes: 0,
            }
        }
    }

    /// The state after `count` further probes that all had the outcome `success`.
    pub open spec fn after_run(
        self,
        success: bool,
        count: nat,
        failure_threshold: u32,
        success_threshold: u32,
    ) -> HealthState
        decreases count,
    {
        if count == 0 {
            self
        } else {
            self.after_run(
                success,
                (count - 1) as nat,
                failure_threshold,
                success_threshold,
            ).after_probe(success, failure_threshold, success_threshold)
        }
    }

    /// A state with the given status and no probe observed yet.
    pub fn new(status: HealthStatus) -> (state: HealthState)
        ensures
            state == HealthState::fresh(status),
    {
        HealthState { status, consecutive_failures: 0, consecutive_successes: 0 }
    }

    /// `true` exactly when the status is `Healthy`.
    pub fn is_healthy(&self) -> (healthy: bool)
        ensures
            healthy == (self.status == HealthStatus::Healthy),
    {
        self.status.is_healthy()
    }

    /// Advances the state machine by one probe outcome.
    pub fn observe(self, success: bool, failure_threshold: u32, success_threshold: u32) -> (next:
        HealthState)
        ensures
            next == self.after_probe(success, failure_threshold, success_threshold),
            self.wf() ==> next.wf(),
    {
        if success {
            let run: u32 = if self.consecutive_successes < u32::MAX {
                self.consecutive_successes + 1
            } else {
                u32::MAX
            };
            let status = if run >= success_threshold {
                HealthStatus::Healthy
            } else {
                self.status
            };
            HealthState { status, consecutive_failures: 0, consecutive_successes: run }
        } else {
            let run: u32 = if self.consecutive_failures < u32::MAX {
                self.consecutive_failures + 1
            } else {
                u32::MAX
            };
            let status = if run >= failure_threshold {
                HealthStatus::Unhealthy
            } else {
                self.status
            };
            HealthState { status, consecutive_failures: run, consecutive_successes: 0 }
        }
    }
}

/// Where a backend listens.
#[derive(Debug, PartialEq, Eq)]
pub struct BackendAddr {
    pub host: String,
    pub port: u16,
}

/// Mathematical value of a [`BackendAddr`].
pub struct BackendAddrView {
    pub host: Seq<char>,
    pub port: u16,
}

impl View for BackendAddr {
    type V = BackendAddrView;

    open spec fn view(&self) -> BackendAddrView {
        BackendAddrView { host: self.host@, port: self.port }
    }
}

impl Clone for BackendAddr {
    fn clone(&self) -> (copy: BackendAddr)
        ensures
            copy@ == self@,
    {
        BackendAddr { host: self.host.clone(), port: self.port }
    }
}

impl BackendAddr {
    /// The address `host:port`.
    pub fn new(host: String, port: u16) -> (addr: BackendAddr)
        ensures
            addr@ == (BackendAddrView { host: host@, port }),
    {
        BackendAddr { host, port }
    }
}

/// One upstream server: its address and its health.
#[derive(Debug, PartialEq, Eq)]
pub struct Backend {
    pub addr: BackendAddr,
    pub health: HealthState,
}

/// Mathematical value of a [`Backend`].
pub struct BackendView {
    pub addr: BackendAddrView,
    pub health: HealthState,
}

impl BackendView {
    /// `true` exactly when the status is `Healthy`.
    pub open spec fn is_healthy(self) -> bool {
        self.health.status == HealthStatus::Healthy
    }
}

impl View for Backend {
    type V = BackendView;

    open spec fn view(&self) -> BackendView {
        BackendView { addr: self.addr@, health: self.health }
    }
}

impl Clone for Backend {
    fn clone(&self) -> (copy: Backend)
        ensures
            copy@ == self@,
    {
        Backend { addr: self.addr.clone(), health: self.health }
    }
}

impl Backend {
    /// A backend at `addr` that starts out `Healthy` with no probe observed.
    pub fn new(addr: BackendAddr) -> (backend: Backend)
        ensures
            backend@ == (BackendView {
                addr: addr@,
                health: HealthState::fresh(HealthStatus::Healthy),
            }),
    {
        Backend { addr, health: HealthState::new(HealthStatus::Healthy) }
    }

    /// `true` exactly when the status is `Healthy`.
    pub fn is_healthy(&self) -> (healthy: bool)
        ensures
            healthy == self@.is_healthy(),
    {
        self.health.is_healthy()
    }
}

} // verus!
