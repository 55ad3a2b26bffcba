//! The statistics aggregate on concrete runs: the classifier, the
//! counter identity, reset semantics, elapsed reporting, gauges, and
//! the histogram summaries.
use loadhub::messages::ElapsedTime;
use loadhub::messages::WorkerState;
use loadhub::stats::Stats;

#[test]
fn classifier_counts_each_class() {
    let mut stats = Stats::new();
    stats.start(0);
    for code in [100u16, 199, 200, 299, 300, 399, 400, 499, 500, 599] {
        stats.record(Some(code), 5);
    }
    let st = stats.as_message(10);
    assert_eq!(st.count, 10);
    assert_eq!(st.count_1xx, 2);
    assert_eq!(st.count_2xx, 2);
    assert_eq!(st.count_3xx, 2);
    assert_eq!(st.count_4xx, 2);
    assert_eq!(st.count_5xx, 2);
    assert_eq!(st.count_fail, 0);
}

#[test]
fn connect_failure_counts_as_fail() {
    let mut stats = Stats::new();
    stats.start(0);
    stats.record(None, 30);
    let st = stats.as_message(10);
    assert_eq!(st.count, 1);
    assert_eq!(st.count_fail, 1);
    // The latency of a failed attempt is recorded too.
    assert_eq!(st.min, 30);
    assert_eq!(st.max, 30);
}

#[test]
fn count_equals_sum_of_classes() {
    let mut stats = Stats::new();
    stats.start(0);
    for code in [200u16, 200, 404, 500, 301] {
        stats.record(Some(code), 1);
    }
    stats.record(None, 1);
    let st = stats.as_message(10);
    let sum = st.count_1xx + st.count_2xx + st.count_3xx + st.count_4xx + st.count_5xx
        + st.count_fail;
    assert_eq!(st.count, sum);
}

#[test]
fn reset_clears_everything() {
    let mut stats = Stats::new();
    stats.start(1000);
    stats.record(Some(200), 42);
    stats.record(None, 17);
    stats.record_gauges(2, 1, 8);
    stats.reset();
    let st = stats.as_message(5000);
    assert!(matches!(st.state, WorkerState::Idle));
    assert!(st.elapsed.is_none());
    assert_eq!(st.count, 0);
    assert_eq!(st.count_2xx, 0);
    assert_eq!(st.count_fail, 0);
    assert_eq!(st.tasks, 0);
    assert_eq!(st.task_queue, 0);
    assert_eq!(st.tasks_max, 0);
    assert_eq!(st.min, 0);
    assert_eq!(st.max, 0);
    assert_eq!(st.mean, 0);
    assert_eq!(st.stdev, 0);
    assert_eq!(st.median, 0);
    assert_eq!(st.p90, 0);
}

#[test]
fn start_restarts_and_stop_fixes_elapsed() {
    let mut stats = Stats::new();
    stats.start(1000);
    let st = stats.as_message(1600);
    assert!(matches!(st.state, WorkerState::Busy));
    assert_eq!(st.elapsed, Some(ElapsedTime { secs: 0, nanos: 600000000 }));
    stats.stop(3500);
    let st = stats.as_message(9999);
    assert!(matches!(st.state, WorkerState::Idle));
    assert_eq!(st.elapsed, Some(ElapsedTime { secs: 2, nanos: 500000000 }));
}

#[test]
fn stop_without_start_clears_elapsed() {
    let mut stats = Stats::new();
    stats.stop(500);
    let st = stats.as_message(600);
    assert!(st.elapsed.is_none());
    assert!(matches!(st.state, WorkerState::Idle));
}

#[test]
fn snapshot_elapsed_grows_with_the_clock() {
    let mut stats = Stats::new();
    stats.start(1000);
    let a = stats.as_message(2000).elapsed.unwrap();
    let b = stats.as_message(4000).elapsed.unwrap();
    assert!(a.secs < b.secs || (a.secs == b.secs && a.nanos <= b.nanos));
}

#[test]
fn gauges_are_reported_and_bounded() {
    let mut stats = Stats::new();
    stats.record_gauges(3, 2, 8);
    let st = stats.as_message(0);
    assert_eq!(st.tasks, 3);
    assert_eq!(st.task_queue, 2);
    assert_eq!(st.tasks_max, 8);
    assert!(st.tasks <= st.tasks_max && st.task_queue <= st.tasks_max);
}

#[test]
fn histogram_summaries_on_small_values() {
    let mut stats = Stats::new();
    stats.start(0);
    for ms in [1u64, 2, 3, 4, 5] {
        stats.record(Some(200), ms);
    }
    let st = stats.as_message(10);
    assert_eq!(st.min, 1);
    assert_eq!(st.max, 5);
    assert_eq!(st.median, 3);
    assert_eq!(st.p90, 5);
    assert_eq!(st.mean, 3);
}

#[test]
fn oversized_latencies_are_tracked_by_resizing() {
    let mut stats = Stats::new();
    stats.start(0);
    stats.record(Some(200), 3600000);
    let st = stats.as_message(10);
    assert_eq!(st.count, 1);
    assert!(st.max >= 3600000);
}

#[test]
fn counter_identity_holds_over_long_runs() {
    // Codes below 100 are kept out by contract; feed only real codes
    // and check the counter identity holds after a long mixed run.
    let mut stats = Stats::new();
    stats.start(0);
    for i in 0..500u32 {
        let code = 100 + ((i * 7) % 500) as u16;
        stats.record(Some(code), (i % 90) as u64 + 1);
    }
    let st = stats.as_message(10);
    let sum = st.count_1xx + st.count_2xx + st.count_3xx + st.count_4xx + st.count_5xx
        + st.count_fail;
    assert_eq!(st.count, 500);
    assert_eq!(st.count, sum);
}
