use cheqd_ledger::locator::CommandMetric;
use cheqd_ledger::locator::Locator;
use cheqd_ledger::locator::COMMAND_METRICS;
use cheqd_ledger::scheduler::default_pool_size;
use cheqd_ledger::scheduler::worker_pool_size;
use cheqd_ledger::scheduler::Command;
use cheqd_ledger::scheduler::CommandMetrics;
use cheqd_ledger::scheduler::Durations;
use cheqd_ledger::scheduler::InstrumentedCommand;
use cheqd_ledger::scheduler::MetricTotals;
use cheqd_ledger::scheduler::Timestamps;

#[test]
fn command_executor_can_be_created() {
    let _command_executor = Locator::new();
    assert!(true, "No crashes on CommandExecutor::new");
}

#[test]
fn command_executor_can_be_dropped() {
    fn drop_test() {
        let _command_executor = Locator::new();
    }

    drop_test();
    assert!(true, "No crashes on CommandExecutor::drop");
}

#[test]
fn locator_new_works() {
    let _locator = Locator::new();
    assert!(true);
}

#[test]
fn locator_drop_works() {
    {
        let _locator = Locator::new();
    }

    assert!(true);
}

#[test]
fn locator_starts_empty() {
    let locator = Locator::new();
    assert!(locator.context.wallet.is_none());
    assert!(locator.context.connected_pool.is_none());
    assert!(locator.context.pools.list().is_empty());
    assert!(locator.workers >= 8);
    for kind in 0..COMMAND_METRICS {
        assert_eq!(
            locator.metrics.totals(kind),
            Some(MetricTotals { count: 0, queued: 0, execution: 0, notification: 0 })
        );
    }
    assert_eq!(locator.metrics.totals(COMMAND_METRICS), None);
    assert_eq!(CommandMetric::KeysAddRandom.index(), 0);
    assert_eq!(CommandMetric::PoolBroadcast.index(), COMMAND_METRICS - 1);
}

#[test]
fn instrumented_command_is_stamped() {
    let before = std::time::SystemTime::now()
        .duration_since(std::time::UNIX_EPOCH)
        .unwrap()
        .as_millis();
    let stamped = InstrumentedCommand::new(Command::Exit);
    assert_eq!(stamped.command, Command::Exit);
    assert!(stamped.enqueue_ts >= before);
    assert!(stamped.enqueue_ts < before + 60_000);
    let fixed = InstrumentedCommand::at(Command::Exit, 17);
    assert_eq!(fixed.enqueue_ts, 17);
}

#[test]
fn pool_size_is_at_least_eight() {
    assert_eq!(worker_pool_size(0), 8);
    assert_eq!(worker_pool_size(4), 8);
    assert_eq!(worker_pool_size(8), 8);
    assert_eq!(worker_pool_size(9), 9);
    assert_eq!(worker_pool_size(64), 64);
    assert!(default_pool_size() >= 8);
    assert_eq!(default_pool_size(), worker_pool_size(num_cpus::get()));
}

#[test]
fn durations_are_the_differences() {
    let stamps = Timestamps { enqueued: 100, started: 130, executed: 190, notified: 195 };
    assert_eq!(
        stamps.durations(),
        Some(Durations { queued: 30, execution: 60, notification: 5 })
    );
    let still = Timestamps { enqueued: 5, started: 5, executed: 5, notified: 5 };
    assert_eq!(
        still.durations(),
        Some(Durations { queued: 0, execution: 0, notification: 0 })
    );
    assert_eq!(
        Timestamps { enqueued: 10, started: 9, executed: 20, notified: 30 }.durations(),
        None
    );
    assert_eq!(
        Timestamps { enqueued: 10, started: 19, executed: 18, notified: 30 }.durations(),
        None
    );
    assert_eq!(
        Timestamps { enqueued: 10, started: 19, executed: 28, notified: 27 }.durations(),
        None
    );
}

#[test]
fn metrics_add_up_per_kind() {
    let mut metrics = CommandMetrics::new(3);
    let spent = Durations { queued: 1, execution: 20, notification: 300 };
    assert!(metrics.record(1, spent));
    assert!(metrics.record(1, spent));
    assert!(!metrics.record(3, spent));
    assert_eq!(
        metrics.totals(1),
        Some(MetricTotals { count: 2, queued: 2, execution: 40, notification: 600 })
    );
    assert_eq!(
        metrics.totals(0),
        Some(MetricTotals { count: 0, queued: 0, execution: 0, notification: 0 })
    );
    assert_eq!(metrics.totals(3), None);
    let huge = Durations { queued: u128::MAX, execution: u128::MAX - 39, notification: 0 };
    assert!(metrics.record(1, huge));
    assert_eq!(
        metrics.totals(1),
        Some(MetricTotals { count: 3, queued: u128::MAX, execution: u128::MAX, notification: 600 })
    );
}
