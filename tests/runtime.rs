use multi_agent::{Error, MultiAgentRuntimeManager, ShutdownStep, WorkerExit, SHUTDOWN_TIMEOUT_MS};
use std::time::Duration;

#[test]
fn test_frequency_calculation() {
    let freq_30hz: u64 = 30;
    let expected_duration_30hz: Duration =
        Duration::from_millis(MultiAgentRuntimeManager::tick_period_ms(freq_30hz));
    assert_eq!(expected_duration_30hz, Duration::from_millis(33));

    let freq_60hz: u64 = 60;
    let expected_duration_60hz: Duration =
        Duration::from_millis(MultiAgentRuntimeManager::tick_period_ms(freq_60hz));
    assert_eq!(expected_duration_60hz, Duration::from_millis(16));

    let freq_10hz: u64 = 10;
    let expected_duration_10hz: Duration =
        Duration::from_millis(MultiAgentRuntimeManager::tick_period_ms(freq_10hz));
    assert_eq!(expected_duration_10hz, Duration::from_millis(100));
}

#[test]
fn short_tick_sleeps_the_rest_of_the_period() {
    let period_ns = MultiAgentRuntimeManager::tick_period_ms(30) * 1_000_000;
    let sleep = MultiAgentRuntimeManager::sleep_after_tick(period_ns, 10_000_000);
    assert_eq!(Duration::from_nanos(sleep), Duration::from_millis(23));
}

#[test]
fn overrunning_tick_does_not_sleep() {
    let period_ns = MultiAgentRuntimeManager::tick_period_ms(30) * 1_000_000;
    assert_eq!(MultiAgentRuntimeManager::sleep_after_tick(period_ns, 40_000_000), 0);
    assert_eq!(MultiAgentRuntimeManager::sleep_after_tick(period_ns, period_ns), 0);
    assert_eq!(MultiAgentRuntimeManager::sleep_after_tick(period_ns, 0), period_ns);
}

#[test]
fn frequency_above_one_khz_gives_zero_period() {
    assert_eq!(MultiAgentRuntimeManager::tick_period_ms(1000), 1);
    assert_eq!(MultiAgentRuntimeManager::tick_period_ms(1001), 0);
    assert_eq!(MultiAgentRuntimeManager::tick_period_ms(1), 1000);
}

#[test]
fn unresponsive_worker_times_out() {
    assert_eq!(MultiAgentRuntimeManager::poll_worker(false, 0), ShutdownStep::Wait);
    assert_eq!(MultiAgentRuntimeManager::poll_worker(false, 4999), ShutdownStep::Wait);
    assert_eq!(
        MultiAgentRuntimeManager::poll_worker(false, SHUTDOWN_TIMEOUT_MS),
        ShutdownStep::Finish(Err(Error::ShutdownTimeout { timeout_ms: 5000 }))
    );
    assert_eq!(
        MultiAgentRuntimeManager::poll_worker(false, 9000),
        ShutdownStep::Finish(Err(Error::ShutdownTimeout { timeout_ms: 5000 }))
    );
}

#[test]
fn finished_worker_is_joined() {
    assert_eq!(MultiAgentRuntimeManager::poll_worker(true, 0), ShutdownStep::Join);
    assert_eq!(MultiAgentRuntimeManager::poll_worker(true, 7000), ShutdownStep::Join);
}

#[test]
fn panicked_worker_becomes_simulation_panic() {
    let exit = WorkerExit::Panicked("step exploded".to_string());
    assert_eq!(
        MultiAgentRuntimeManager::joined(exit),
        Err(Error::SimulationPanic("step exploded".to_string()))
    );
}

#[test]
fn worker_result_is_passed_on() {
    assert_eq!(MultiAgentRuntimeManager::joined(WorkerExit::Returned(Ok(()))), Ok(()));
    assert_eq!(
        MultiAgentRuntimeManager::joined(WorkerExit::Returned(Err(Error::Gui("x".to_string())))),
        Err(Error::Gui("x".to_string()))
    );
}
