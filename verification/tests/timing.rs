use tokimo_media_intelligence::activity::{ProxyActivity, ReapReport, ReapTimer, NANOS_PER_SEC};
use tokimo_media_intelligence::idle::{IdleMonitor, LoopStep, WorkerSignal};

const SEC: u128 = NANOS_PER_SEC;

#[test]
fn idle_child_is_reaped_on_time() {
    let mut activity = ProxyActivity::new(30, 0);
    activity.begin();
    let timer = activity.finish(5 * SEC).unwrap();
    assert_eq!(timer, ReapTimer { generation: 2, delay_secs: 30 });
    assert_eq!(activity.timer_ended(timer, 35 * SEC - 1), None);
    assert_eq!(
        activity.timer_ended(timer, 35 * SEC),
        Some(ReapReport { idle_secs: 30, active_requests: 0 })
    );
    assert_eq!(
        activity.timer_ended(timer, 36 * SEC + 7),
        Some(ReapReport { idle_secs: 31, active_requests: 0 })
    );
    assert_eq!(activity.timer_ended(timer, 0), None);
}

#[test]
fn stale_timer_does_nothing() {
    let mut activity = ProxyActivity::new(30, 0);
    activity.begin();
    let first = activity.finish(0).unwrap();
    activity.begin();
    assert_eq!(activity.timer_ended(first, 100 * SEC), None);
    let second = activity.finish(10 * SEC).unwrap();
    assert_eq!(activity.timer_ended(first, 100 * SEC), None);
    assert!(activity.timer_ended(second, 100 * SEC).is_some());
}

#[test]
fn latest_timer_counts_requests_still_under_way() {
    let mut activity = ProxyActivity::new(1, 0);
    activity.begin();
    activity.begin();
    let timer = activity.finish(0).unwrap();
    assert_eq!(
        activity.timer_ended(timer, SEC),
        Some(ReapReport { idle_secs: 1, active_requests: 1 })
    );
}

#[test]
fn without_reaping_there_are_no_timers() {
    let mut activity = ProxyActivity::new(0, 0);
    activity.begin();
    assert_eq!(activity.finish(SEC), None);
}

#[test]
fn worker_without_idle_time_goes_on() {
    let monitor = IdleMonitor::new(0, 0);
    assert_eq!(monitor.sleep_for(5), 60 * SEC);
    assert_eq!(monitor.on_timer(u128::MAX), LoopStep::Continue);
}

#[test]
fn idle_worker_exits_on_time() {
    let monitor = IdleMonitor::new(10, 2 * SEC);
    assert_eq!(monitor.sleep_for(2 * SEC), 10 * SEC);
    assert_eq!(monitor.sleep_for(11 * SEC), SEC);
    assert_eq!(monitor.sleep_for(13 * SEC), 0);
    assert_eq!(monitor.on_timer(12 * SEC - 1), LoopStep::Continue);
    assert_eq!(monitor.on_timer(12 * SEC), LoopStep::ExitIdle(10));
    assert_eq!(monitor.on_timer(15 * SEC + 1), LoopStep::ExitIdle(13));
}

#[test]
fn activity_keeps_the_worker_up() {
    let mut monitor = IdleMonitor::new(10, 0);
    assert_eq!(monitor.on_signal(WorkerSignal::Activity, 9 * SEC), LoopStep::Continue);
    assert_eq!(monitor.on_timer(10 * SEC), LoopStep::Continue);
    assert_eq!(monitor.sleep_for(10 * SEC), 9 * SEC);
    assert_eq!(monitor.on_timer(19 * SEC), LoopStep::ExitIdle(10));
}

#[test]
fn shutdown_signal_ends_the_loop() {
    let mut monitor = IdleMonitor::new(0, 0);
    assert_eq!(monitor.on_signal(WorkerSignal::Shutdown, 1), LoopStep::ExitOnRequest);
    let mut monitor = IdleMonitor::new(10, 0);
    assert_eq!(monitor.on_signal(WorkerSignal::Shutdown, 1), LoopStep::ExitOnRequest);
    assert_eq!(monitor.sleep_for(0), 10 * SEC);
}

#[test]
fn longest_idle_time() {
    let monitor = IdleMonitor::new(u64::MAX, u128::MAX);
    assert_eq!(monitor.sleep_for(0), u128::MAX);
    let monitor = IdleMonitor::new(u64::MAX, 0);
    assert_eq!(monitor.sleep_for(1), u64::MAX as u128 * SEC - 1);
}

#[test]
fn burst_is_reaped_after_once() {
    let mut activity = ProxyActivity::new(10, 0);
    let mut timers: Vec<(ReapTimer, u128)> = Vec::new();
    for k in 0..5u128 {
        activity.begin();
        let now = k * SEC;
        timers.push((activity.finish(now).unwrap(), now + 10 * SEC));
    }
    let reaped: Vec<bool> = timers
        .iter()
        .map(|(timer, ended)| activity.timer_ended(*timer, *ended).is_some())
        .collect();
    assert_eq!(reaped, vec![false, false, false, false, true]);
}
