//! The health checker: from probe results to health transitions.
//!
//! Probing itself (opening a connection, waiting, giving up after the
//! timeout) is done by the caller, once per backend and tick. This module
//! decides what an attempt counts as and what it does to the pool:
//!
//! * an attempt that did not finish within the timeout, or that failed,
//!   counts as one failure; it is not retried within the tick;
//! * a backend becomes `Unhealthy` with its `failure_threshold`-th
//!   consecutive failure and `Healthy` again with its
//!   `success_threshold`-th consecutive success;
//! * what a tick does to one backend depends on that backend's own probe
//!   only.
//!
//! The defaults are a threshold of one in both directions and one second
//! for both the interval and the timeout.

use crate::backend::{BackendView, HealthState, HealthStatus};
use crate::pool::{same_members, BackendPool, PoolError};
use vstd::prelude::*;

verus! {

/// Consecutive failures after which a backend is demoted, by default.
pub const DEFAULT_FAILURE_THRESHOLD: u32 = 1;

/// Consecutive successes after which a backend is promoted, by default.
pub const DEFAULT_SUCCESS_THRESHOLD: u32 = 1;

/// Milliseconds between two ticks, by default.
pub const DEFAULT_INTERVAL_MS: u64 = 1000;

/// Milliseconds after which a probe is given up, by default.
pub const DEFAULT_TIMEOUT_MS: u64 = 1000;

/// The settings of the health checker.
#[derive(Clone, Copy, Debug, PartialEq, Eq, Structural)]
pub struct HealthConfig {
    /// Consecutive failures that make a backend `Unhealthy`; at least 1.
    pub failure_threshold: u32,
    /// Consecutive successes that make a backend `Healthy`; at least 1.
    pub success_threshold: u32,
    /// Milliseconds between two ticks.
    pub interval_ms: u64,
    /// Milliseconds after which a probe is given up.
    pub timeout_ms: u64,
}

impl HealthConfig {
    /// Both thresholds are at least 1.
    pub open spec fn wf(self) -> bool {
        self.failure_threshold >= 1 && self.success_threshold >= 1
    }

    /// The default settings.
    pub open spec fn standard() -> HealthConfig {
        HealthConfig {
            failure_threshold: DEFAULT_FAILURE_THRESHOLD,
            success_threshold: DEFAULT_SUCCESS_THRESHOLD,
            interval_ms: DEFAULT_INTERVAL_MS,
            timeout_ms: DEFAULT_TIMEOUT_MS,
        }
    }
}

impl Default for HealthConfig {
    fn default() -> (config: HealthConfig)
        ensures
            config == HealthConfig::standard(),
            config.wf(),
    {
        HealthConfig {
            failure_threshold: DEFAULT_FAILURE_THRESHOLD,
            success_threshold: DEFAULT_SUCCESS_THRESHOLD,
            interval_ms: DEFAULT_INTERVAL_MS,
            timeout_ms: DEFAULT_TIMEOUT_MS,
        }
    }
}

/// Why settings were refused.
#[derive(Clone, Copy, Debug, PartialEq, Eq, Structural)]
pub enum ConfigError {
    /// The failure threshold is 0.
    ZeroFailureThreshold,
    /// The failure threshold is fine and the success threshold is 0.
    ZeroSuccessThreshold,
}

/// What one probe attempt counted as.
#[derive(Clone, Copy, Debug, PartialEq, Eq, Structural)]
pub enum ProbeOutcome {
    /// The backend answered within the timeout.
    Success,
    /// No answer within the timeout; the attempt was given up.
    TimedOut,
    /// The attempt ended with an error within the timeout.
    Failed,
}

impl ProbeOutcome {
    /// `true` exactly for `Success`.
    pub open spec fn succeeded(self) -> bool {
        self == ProbeOutcome::Success
    }

    /// `true` exactly for `Success`.
    pub fn is_success(&self) -> (success: bool)
        ensures
            success == self.succeeded(),
    {
        match self {
            ProbeOutcome::Success => true,
            _ => false,
        }
    }
}

/// The result of one probe of one backend.
#[derive(Clone, Copy, Debug, PartialEq, Eq, Structural)]
pub struct ProbeResult {
    /// Index of the probed backend in pool order.
    pub backend: usize,
    /// What the attempt counted as.
    pub outcome: ProbeOutcome,
    /// Milliseconds the attempt took, at most the timeout.
    pub latency_ms: u64,
}

/// The result that an attempt on `backend` counts as under `timeout_ms`,
/// when it ended after `elapsed_ms` and `connected` tells whether it
/// reached the backend.
pub open spec fn classified(
    backend: usize,
    connected: bool,
    elapsed_ms: u64,
    timeout_ms: u64,
) -> ProbeResult {
    if elapsed_ms > timeout_ms {
        ProbeResult { backend, outcome: ProbeOutcome::TimedOut, latency_ms: timeout_ms }
    } else if connected {
        ProbeResult { backend, outcome: ProbeOutcome::Success, latency_ms: elapsed_ms }
    } else {
        ProbeResult { backend, outcome: ProbeOutcome::Failed, latency_ms: elapsed_ms }
    }
}

/// The results are those of one tick on a pool of `pool_len`: one for each
/// backend, in pool order.
pub open spec fn one_per_backend(pool_len: nat, results: Seq<ProbeResult>) -> bool {
    &&& results.len() == pool_len
    &&& forall|i: int| 0 <= i < results.len() ==> (#[trigger] results[i]).backend == i
}

/// The pool after a tick with the given results: every backend has taken
/// the step that its own probe calls for.
pub open spec fn after_tick(
    pool: Seq<BackendView>,
    results: Seq<ProbeResult>,
    config: HealthConfig,
) -> Seq<BackendView> {
    Seq::new(
        pool.len(),
        |i: int|
            BackendView {
                addr: pool[i].addr,
                health: pool[i].health.after_probe(
                    results[i].outcome.succeeded(),
                    config.failure_threshold,
                    config.success_threshold,
                ),
            },
    )
}

/// Why the results of a tick were refused.
#[derive(Clone, Copy, Debug, PartialEq, Eq, Structural)]
pub enum TickError {
    /// There are more or fewer results than backends.
    WrongCount,
    /// The count is right, but some result is not in its backend's place.
    WrongBackend,
}

/// The length of a run that stood at `start` and grew by `count`, held at
/// `u32::MAX`.
pub open spec fn run_length(start: u32, count: nat) -> u32 {
    if start + count < u32::MAX {
        (start + count) as u32
    } else {
        u32::MAX
    }
}

/// Closed form of a run of failures: after `count >= 1` failed probes in a
/// row the failure run has grown by `count`, the success run is empty, and
/// the backend is `Unhealthy` if the failure run has reached the
/// threshold; otherwise its status is as before.
pub proof fn lemma_failure_run(
    state: HealthState,
    count: nat,
    failure_threshold: u32,
    success_threshold: u32,
)
    requires
        count >= 1,
    ensures
        state.after_run(false, count, failure_threshold, success_threshold) == (HealthState {
            status: if run_length(state.consecutive_failures, count) >= failure_threshold {
                HealthStatus::Unhealthy
            } else {
                state.status
            },
            consecutive_failures: run_length(state.consecutive_failures, count),
            consecutive_successes: 0,
        }),
    decreases count,
{
    reveal_with_fuel(HealthState::after_run, 2);
    if count > 1 {
        lemma_failure_run(state, (count - 1) as nat, failure_threshold, success_threshold);
    }
}

/// Closed form of a run of successes: after `count >= 1` successful probes
/// in a row the success run has grown by `count`, the failure run is
/// empty, and the backend is `Healthy` if the success run has reached the
/// threshold; otherwise its status is as before.
pub proof fn lemma_success_run(
    state: HealthState,
    count: nat,
    failure_threshold: u32,
    success_threshold: u32,
)
    requires
        count >= 1,
    ensures
        state.after_run(true, count, failure_threshold, success_threshold) == (HealthState {
            status: if run_length(state.consecutive_successes, count) >= success_threshold {
                HealthStatus::Healthy
            } else {
                state.status
            },
            consecutive_failures: 0,
            consecutive_successes: run_length(state.consecutive_successes, count),
        }),
    decreases count,
{
    reveal_with_fuel(HealthState::after_run, 2);
    if count > 1 {
        lemma_success_run(state, (count - 1) as nat, failure_threshold, success_threshold);
    }
}

/// Demotion: a backend that fails `failure_threshold` probes in a row is
/// `Unhealthy` after them, whatever it was before. If it was `Healthy`
/// and its failure run was empty, it is still `Healthy` after any smaller
/// number of failures.
pub proof fn lemma_demotion(state: HealthState, config: HealthConfig)
    requires
        config.wf(),
    ensures
        state.after_run(
            false,
            config.failure_threshold as nat,
            config.failure_threshold,
            config.success_threshold,
        ).status == HealthStatus::Unhealthy,
        forall|fewer: nat|
            fewer < config.failure_threshold && state.status == HealthStatus::Healthy
                && state.consecutive_failures == 0 ==> (#[trigger] state.after_run(
                false,
                fewer,
                config.failure_threshold,
                config.success_threshold,
            )).status == HealthStatus::Healthy,
{
    lemma_failure_run(
        state,
        config.failure_threshold as nat,
        config.failure_threshold,
        config.success_threshold,
    );
    assert forall|fewer: nat|
        fewer < config.failure_threshold && state.status == HealthStatus::Healthy
            && state.consecutive_failures == 0 implies (#[trigger] state.after_run(
        false,
        fewer,
        config.failure_threshold,
        config.success_threshold,
    )).status == HealthStatus::Healthy by {
        if fewer >= 1 {
            lemma_failure_run(state, fewer, config.failure_threshold, config.success_threshold);
        }
    }
}

/// Promotion: a backend that succeeds `success_threshold` probes in a row
/// is `Healthy` after them, whatever it was before. If it was `Unhealthy`
/// and its success run was empty, it is still `Unhealthy` after any
/// smaller number of successes.
pub proof fn lemma_promotion(state: HealthState, config: HealthConfig)
    requires
        config.wf(),
    ensures
        state.after_run(
            true,
            config.success_threshold as nat,
            config.failure_threshold,
            config.success_threshold,
        ).status == HealthStatus::Healthy,
        forall|fewer: nat|
            fewer < config.success_threshold && state.status == HealthStatus::Unhealthy
                && state.consecutive_successes == 0 ==> (#[trigger] state.after_run(
                true,
                fewer,
                config.failure_threshold,
                config.success_threshold,
            )).status == HealthStatus::Unhealthy,
{
    lemma_success_run(
        state,
        config.success_threshold as nat,
        config.failure_threshold,
        config.success_threshold,
    );
    assert forall|fewer: nat|
        fewer < config.success_threshold && state.status == HealthStatus::Unhealthy
            && state.consecutive_successes == 0 implies (#[trigger] state.after_run(
        true,
        fewer,
        config.failure_threshold,
        config.success_threshold,
    )).status == HealthStatus::Unhealthy by {
        if fewer >= 1 {
            lemma_success_run(state, fewer, config.failure_threshold, config.success_threshold);
        }
    }
}

/// Demotion and recovery: a `Healthy` backend that fails
/// `failure_threshold` probes in a row is `Unhealthy`; if it then succeeds
/// `success_threshold` probes in a row it is `Healthy` again, and not
/// before the last of them.
pub proof fn lemma_demotion_then_promotion(state: HealthState, config: HealthConfig)
    requires
        config.wf(),
        state.status == HealthStatus::Healthy,
    ensures
        ({
            let down = state.after_run(
                false,
                config.failure_threshold as nat,
                config.failure_threshold,
                config.success_threshold,
            );
            &&& down.status == HealthStatus::Unhealthy
            &&& down.after_run(
                true,
                config.success_threshold as nat,
                config.failure_threshold,
                config.success_threshold,
            ).status == HealthStatus::Healthy
            &&& forall|fewer: nat|
                fewer < config.success_threshold ==> (#[trigger] down.after_run(
                    true,
                    fewer,
                    config.failure_threshold,
                    config.success_threshold,
                )).status == HealthStatus::Unhealthy
        }),
{
    let down = state.after_run(
        false,
        config.failure_threshold as nat,
        config.failure_threshold,
        config.success_threshold,
    );
    lemma_failure_run(
        state,
        config.failure_threshold as nat,
        config.failure_threshold,
        config.success_threshold,
    );
    lemma_promotion(down, config);
}

/// What a tick does to one backend depends on that backend's own probe
/// only: two ticks whose results agree for backend `index` leave it in the
/// same state, whatever the other probes gave.
pub proof fn lemma_tick_is_per_backend(
    pool: Seq<BackendView>,
    first: Seq<ProbeResult>,
    second: Seq<ProbeResult>,
    config: HealthConfig,
    index: int,
)
    requires
        0 <= index < pool.len(),
        first[index].outcome.succeeded() == second[index].outcome.succeeded(),
    ensures
        after_tick(pool, first, config)[index] == after_tick(pool, second, config)[index],
{
}

/// The health checker: validated settings, applied to probe results.
#[derive(Debug)]
pub struct HealthChecker {
    config: HealthConfig,
}

impl View for HealthChecker {
    type V = HealthConfig;

    closed spec fn view(&self) -> HealthConfig {
        self.config
    }
}

impl HealthChecker {
    #[verifier::type_invariant]
    spec fn thresholds_positive(self) -> bool {
        self.config.wf()
    }

    /// A checker with the given settings, unless a threshold is 0.
    pub fn new(config: HealthConfig) -> (made: Result<HealthChecker, ConfigError>)
        ensures
            match made {
                Ok(checker) => config.wf() && checker@ == config,
                Err(ConfigError::ZeroFailureThreshold) => config.failure_threshold == 0,
                Err(ConfigError::ZeroSuccessThreshold) => config.failure_threshold >= 1
                    && config.success_threshold == 0,
            },
    {
        if config.failure_threshold == 0 {
            Err(ConfigError::ZeroFailureThreshold)
        } else if config.success_threshold == 0 {
            Err(ConfigError::ZeroSuccessThreshold)
        } else {
            Ok(HealthChecker { config })
        }
    }

    /// The settings; their thresholds are at least 1.
    pub fn config(&self) -> (config: HealthConfig)
        ensures
            config == self@,
            config.wf(),
    {
        proof {
            use_type_invariant(self);
        }
        self.config
    }

    /// Classifies a finished probe attempt on `backend`.
    ///
    /// An attempt that took longer than the timeout counts as timed out,
    /// whether or not it reached the backend in the end, and its latency
    /// is recorded as the timeout. Otherwise it is a success if it
    /// reached the backend and a failure if not.
    pub fn classify(&self, backend: usize, connected: bool, elapsed_ms: u64) -> (result:
        ProbeResult)
        ensures
            result == classified(backend, connected, elapsed_ms, self@.timeout_ms),
    {
        if elapsed_ms > self.config.timeout_ms {
            ProbeResult {
                backend,
                outcome: ProbeOutcome::TimedOut,
                latency_ms: self.config.timeout_ms,
            }
        } else if connected {
            ProbeResult { backend, outcome: ProbeOutcome::Success, latency_ms: elapsed_ms }
        } else {
            ProbeResult { backend, outcome: ProbeOutcome::Failed, latency_ms: elapsed_ms }
        }
    }

    /// Consumes one probe result: the probed backend takes one step of its
    /// state machine. Tells whether its status changed.
    ///
    /// A result for a backend that the pool does not have changes nothing
    /// and is reported.
    pub fn report(&self, pool: &mut BackendPool, result: ProbeResult) -> (flipped: Result<
        bool,
        PoolError,
    >)
        ensures
            flipped is Ok <==> result.backend < old(pool)@.len(),
            match flipped {
                Ok(changed) => {
                    let before = old(pool)@[result.backend as int].health;
                    let after = before.after_probe(
                        result.outcome.succeeded(),
                        self@.failure_threshold,
                        self@.success_threshold,
                    );
                    &&& final(pool)@ == crate::pool::with_health(
                        old(pool)@,
                        result.backend as int,
                        after,
                    )
                    &&& changed == (after.status != before.status)
                },
                Err(_) => final(pool)@ == old(pool)@,
            },
            same_members(old(pool)@, final(pool)@),
    {
        pool.record(
            result.backend,
            result.outcome.is_success(),
            self.config.failure_threshold,
            self.config.success_threshold,
        )
    }

    /// Consumes the results of one tick: one probe per backend, in pool
    /// order. Every backend takes the step that its own probe calls for.
    ///
    /// Results that are not one per backend in pool order change nothing
    /// and are reported.
    pub fn apply_tick(&self, pool: &mut BackendPool, results: &Vec<ProbeResult>) -> (done: Result<
        (),
        TickError,
    >)
        ensures
            match done {
                Ok(()) => one_per_backend(old(pool)@.len(), results@) && final(pool)@
                    == after_tick(old(pool)@, results@, self@),
                Err(TickError::WrongCount) => results@.len() != old(pool)@.len() && final(pool)@
                    == old(pool)@,
                Err(TickError::WrongBackend) => results@.len() == old(pool)@.len()
                    && !one_per_backend(old(pool)@.len(), results@) && final(pool)@ == old(pool)@,
            },
            same_members(old(pool)@, final(pool)@),
    {
        let n = pool.len();
        if results.len() != n {
            return Err(TickError::WrongCount);
        }
        let mut i: usize = 0;
        while i < n
            invariant
                i <= n,
                n == results@.len(),
                n == old(pool)@.len(),
                pool@ == old(pool)@,
                forall|j: int| 0 <= j < i ==> (#[trigger] results@[j]).backend == j,
            decreases n - i,
        {
            if results[i].backend != i {
                return Err(TickError::WrongBackend);
            }
            i += 1;
        }
        let mut k: usize = 0;
        while k < n
            invariant
                k <= n,
                n == results@.len(),
                n == old(pool)@.len(),
                pool@.len() == n,
                one_per_backend(old(pool)@.len(), results@),
                forall|j: int|
                    0 <= j < k ==> #[trigger] pool@[j] == after_tick(
                        old(pool)@,
                        results@,
                        self@,
                    )[j],
                forall|j: int| k <= j < n ==> #[trigger] pool@[j] == old(pool)@[j],
            decreases n - k,
        {
            let _ = self.report(pool, results[k]);
            k += 1;
        }
        assert(pool@ =~= after_tick(old(pool)@, results@, self@));
        Ok(())
    }
}

} // verus!
