use load_balancer::backend::{BackendAddr, HealthState, HealthStatus};
use load_balancer::health::{
    ConfigError, HealthChecker, HealthConfig, ProbeOutcome, ProbeResult, TickError,
    DEFAULT_FAILURE_THRESHOLD, DEFAULT_INTERVAL_MS, DEFAULT_SUCCESS_THRESHOLD, DEFAULT_TIMEOUT_MS,
};
use load_balancer::pool::{BackendPool, PoolConfig, PoolError};

fn pool_of(size: usize) -> BackendPool {
    let mut addrs: Vec<BackendAddr> = Vec::new();
    for i in 0..size {
        addrs.push(BackendAddr::new(format!("backend{}", i), 3000));
    }
    BackendPool::new(&PoolConfig::new(addrs))
}

fn checker(failure_threshold: u32, success_threshold: u32) -> HealthChecker {
    HealthChecker::new(HealthConfig {
        failure_threshold,
        success_threshold,
        interval_ms: 1000,
        timeout_ms: 250,
    })
    .unwrap()
}

fn result(backend: usize, outcome: ProbeOutcome) -> ProbeResult {
    ProbeResult { backend, outcome, latency_ms: 3 }
}

#[test]
fn default_settings_are_the_documented_constants() {
    let config = HealthConfig::default();
    assert_eq!(DEFAULT_FAILURE_THRESHOLD, 1);
    assert_eq!(DEFAULT_SUCCESS_THRESHOLD, 1);
    assert_eq!(DEFAULT_INTERVAL_MS, 1000);
    assert_eq!(DEFAULT_TIMEOUT_MS, 1000);
    assert_eq!(
        config,
        HealthConfig { failure_threshold: 1, success_threshold: 1, interval_ms: 1000, timeout_ms: 1000 }
    );
    assert_eq!(HealthChecker::new(config).unwrap().config(), config);
}

#[test]
fn zero_failure_threshold_is_refused() {
    let config = HealthConfig { failure_threshold: 0, success_threshold: 1, interval_ms: 1, timeout_ms: 1 };
    assert_eq!(HealthChecker::new(config).err(), Some(ConfigError::ZeroFailureThreshold));
    let both = HealthConfig { failure_threshold: 0, success_threshold: 0, interval_ms: 1, timeout_ms: 1 };
    assert_eq!(HealthChecker::new(both).err(), Some(ConfigError::ZeroFailureThreshold));
}

#[test]
fn zero_success_threshold_is_refused() {
    let config = HealthConfig { failure_threshold: 1, success_threshold: 0, interval_ms: 1, timeout_ms: 1 };
    assert_eq!(HealthChecker::new(config).err(), Some(ConfigError::ZeroSuccessThreshold));
}

#[test]
fn fresh_state_has_empty_runs() {
    assert_eq!(
        HealthState::new(HealthStatus::Unhealthy),
        HealthState { status: HealthStatus::Unhealthy, consecutive_failures: 0, consecutive_successes: 0 }
    );
    assert!(HealthState::new(HealthStatus::Healthy).is_healthy());
    assert!(!HealthState::new(HealthStatus::Unhealthy).is_healthy());
    assert!(HealthStatus::Healthy.is_healthy());
    assert!(!HealthStatus::Unhealthy.is_healthy());
}

#[test]
fn demotion_after_exactly_the_threshold_of_failures() {
    let mut state = HealthState::new(HealthStatus::Healthy);
    state = state.observe(false, 3, 2);
    assert_eq!(
        state,
        HealthState { status: HealthStatus::Healthy, consecutive_failures: 1, consecutive_successes: 0 }
    );
    state = state.observe(false, 3, 2);
    assert_eq!(state.status, HealthStatus::Healthy);
    state = state.observe(false, 3, 2);
    assert_eq!(
        state,
        HealthState { status: HealthStatus::Unhealthy, consecutive_failures: 3, consecutive_successes: 0 }
    );
}

#[test]
fn promotion_after_exactly_the_threshold_of_successes() {
    let mut state = HealthState::new(HealthStatus::Healthy);
    for _ in 0..3 {
        state = state.observe(false, 3, 2);
    }
    assert_eq!(state.status, HealthStatus::Unhealthy);
    state = state.observe(true, 3, 2);
    assert_eq!(
        state,
        HealthState { status: HealthStatus::Unhealthy, consecutive_failures: 0, consecutive_successes: 1 }
    );
    state = state.observe(true, 3, 2);
    assert_eq!(
        state,
        HealthState { status: HealthStatus::Healthy, consecutive_failures: 0, consecutive_successes: 2 }
    );
}

#[test]
fn a_success_interrupts_a_run_of_failures() {
    let mut state = HealthState::new(HealthStatus::Healthy);
    state = state.observe(false, 3, 1);
    state = state.observe(false, 3, 1);
    state = state.observe(true, 3, 1);
    assert_eq!(state.consecutive_failures, 0);
    state = state.observe(false, 3, 1);
    state = state.observe(false, 3, 1);
    assert_eq!(state.status, HealthStatus::Healthy);
    state = state.observe(false, 3, 1);
    assert_eq!(state.status, HealthStatus::Unhealthy);
}

#[test]
fn a_failure_interrupts_a_run_of_successes() {
    let mut state = HealthState::new(HealthStatus::Unhealthy);
    state = state.observe(true, 1, 2);
    state = state.observe(false, 1, 2);
    state = state.observe(true, 1, 2);
    assert_eq!(state.status, HealthStatus::Unhealthy);
    state = state.observe(true, 1, 2);
    assert_eq!(state.status, HealthStatus::Healthy);
}

#[test]
fn threshold_of_one_flips_at_once() {
    let state = HealthState::new(HealthStatus::Healthy).observe(false, 1, 1);
    assert_eq!(state.status, HealthStatus::Unhealthy);
    assert_eq!(state.observe(true, 1, 1).status, HealthStatus::Healthy);
}

#[test]
fn runs_stop_growing_at_the_largest_count() {
    let state = HealthState {
        status: HealthStatus::Healthy,
        consecutive_failures: u32::MAX - 1,
        consecutive_successes: 0,
    };
    let once = state.observe(false, u32::MAX, 1);
    assert_eq!(once.consecutive_failures, u32::MAX);
    assert_eq!(once.status, HealthStatus::Unhealthy);
    let twice = once.observe(false, u32::MAX, 1);
    assert_eq!(twice.consecutive_failures, u32::MAX);
    let up = HealthState {
        status: HealthStatus::Healthy,
        consecutive_failures: 0,
        consecutive_successes: u32::MAX,
    };
    assert_eq!(up.observe(true, 1, 1).consecutive_successes, u32::MAX);
}

#[test]
fn classify_tells_success_failure_and_timeout_apart() {
    let checker = checker(1, 1);
    assert_eq!(
        checker.classify(4, true, 17),
        ProbeResult { backend: 4, outcome: ProbeOutcome::Success, latency_ms: 17 }
    );
    assert_eq!(
        checker.classify(4, false, 17),
        ProbeResult { backend: 4, outcome: ProbeOutcome::Failed, latency_ms: 17 }
    );
    assert_eq!(
        checker.classify(4, true, 251),
        ProbeResult { backend: 4, outcome: ProbeOutcome::TimedOut, latency_ms: 250 }
    );
    assert_eq!(
        checker.classify(4, false, u64::MAX),
        ProbeResult { backend: 4, outcome: ProbeOutcome::TimedOut, latency_ms: 250 }
    );
    assert_eq!(checker.classify(0, true, 250).outcome, ProbeOutcome::Success);
    assert!(ProbeOutcome::Success.is_success());
    assert!(!ProbeOutcome::TimedOut.is_success());
    assert!(!ProbeOutcome::Failed.is_success());
}

#[test]
fn timeout_and_error_both_count_as_one_failure() {
    let checker = checker(2, 1);
    let mut pool = pool_of(1);
    assert_eq!(checker.report(&mut pool, result(0, ProbeOutcome::TimedOut)), Ok(false));
    assert_eq!(pool.get(0).unwrap().health.consecutive_failures, 1);
    assert_eq!(checker.report(&mut pool, result(0, ProbeOutcome::Failed)), Ok(true));
    assert_eq!(pool.get(0).unwrap().health.consecutive_failures, 2);
    assert!(!pool.is_healthy(0));
}

#[test]
fn report_for_unknown_backend_is_refused() {
    let checker = checker(1, 1);
    let mut pool = pool_of(2);
    let before = pool.snapshot();
    assert_eq!(
        checker.report(&mut pool, result(2, ProbeOutcome::Failed)),
        Err(PoolError::NoSuchBackend)
    );
    assert_eq!(pool.snapshot(), before);
}

#[test]
fn tick_steps_every_backend_by_its_own_probe() {
    let checker = checker(1, 2);
    let mut pool = pool_of(3);
    let results = vec![
        result(0, ProbeOutcome::Success),
        result(1, ProbeOutcome::TimedOut),
        result(2, ProbeOutcome::Success),
    ];
    assert_eq!(checker.apply_tick(&mut pool, &results), Ok(()));
    let members = pool.snapshot();
    assert_eq!(
        members[0].health,
        HealthState { status: HealthStatus::Healthy, consecutive_failures: 0, consecutive_successes: 1 }
    );
    assert_eq!(
        members[1].health,
        HealthState { status: HealthStatus::Unhealthy, consecutive_failures: 1, consecutive_successes: 0 }
    );
    assert_eq!(members[2].health, members[0].health);
    assert_eq!(members[1].addr, BackendAddr::new("backend1".to_string(), 3000));
}

#[test]
fn failing_probe_of_one_backend_leaves_the_others_as_a_clean_tick_would() {
    let checker = checker(1, 1);
    let mut with_failure = pool_of(3);
    let mut clean = pool_of(3);
    let failing = vec![
        result(0, ProbeOutcome::Success),
        result(1, ProbeOutcome::TimedOut),
        result(2, ProbeOutcome::Success),
    ];
    let passing = vec![
        result(0, ProbeOutcome::Success),
        result(1, ProbeOutcome::Success),
        result(2, ProbeOutcome::Success),
    ];
    checker.apply_tick(&mut with_failure, &failing).unwrap();
    checker.apply_tick(&mut clean, &passing).unwrap();
    assert_eq!(with_failure.get(0), clean.get(0));
    assert_eq!(with_failure.get(2), clean.get(2));
    assert_ne!(with_failure.get(1), clean.get(1));
}

#[test]
fn tick_with_wrong_number_of_results_is_refused() {
    let checker = checker(1, 1);
    let mut pool = pool_of(2);
    let before = pool.snapshot();
    let short = vec![result(0, ProbeOutcome::Failed)];
    assert_eq!(checker.apply_tick(&mut pool, &short), Err(TickError::WrongCount));
    let long = vec![
        result(0, ProbeOutcome::Failed),
        result(1, ProbeOutcome::Failed),
        result(2, ProbeOutcome::Failed),
    ];
    assert_eq!(checker.apply_tick(&mut pool, &long), Err(TickError::WrongCount));
    assert_eq!(pool.snapshot(), before);
}

#[test]
fn tick_with_a_backend_probed_twice_is_refused() {
    let checker = checker(1, 1);
    let mut pool = pool_of(2);
    let before = pool.snapshot();
    let twice = vec![result(0, ProbeOutcome::Failed), result(0, ProbeOutcome::Failed)];
    assert_eq!(checker.apply_tick(&mut pool, &twice), Err(TickError::WrongBackend));
    let swapped = vec![result(1, ProbeOutcome::Failed), result(0, ProbeOutcome::Failed)];
    assert_eq!(checker.apply_tick(&mut pool, &swapped), Err(TickError::WrongBackend));
    assert_eq!(pool.snapshot(), before);
}

#[test]
fn tick_on_empty_pool_takes_no_results() {
    let checker = checker(1, 1);
    let mut pool = pool_of(0);
    assert_eq!(checker.apply_tick(&mut pool, &Vec::new()), Ok(()));
    assert_eq!(
        checker.apply_tick(&mut pool, &vec![result(0, ProbeOutcome::Success)]),
        Err(TickError::WrongCount)
    );
}

#[test]
fn all_backends_may_be_unhealthy_and_come_back() {
    let checker = checker(1, 1);
    let mut pool = pool_of(2);
    let down = vec![result(0, ProbeOutcome::Failed), result(1, ProbeOutcome::TimedOut)];
    checker.apply_tick(&mut pool, &down).unwrap();
    assert!(!pool.is_healthy(0) && !pool.is_healthy(1));
    let up = vec![result(0, ProbeOutcome::Success), result(1, ProbeOutcome::Success)];
    checker.apply_tick(&mut pool, &up).unwrap();
    assert!(pool.is_healthy(0) && pool.is_healthy(1));
}
