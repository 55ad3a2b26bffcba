//! Dispatcher, scheduler, session records, collector, control-API
//! projections, frame handling, and request preparation on concrete
//! runs.
use loadhub::coordinator::handle_incoming_message;
use loadhub::coordinator::CoordinatorAction;
use loadhub::messages::AttackStrategy;
use loadhub::messages::Command;
use loadhub::messages::ElapsedTime;
use loadhub::messages::Frame;
use loadhub::messages::HttpVersion;
use loadhub::messages::RequestMethod;
use loadhub::messages::RequestSpec;
use loadhub::messages::WorkerState as ReportedState;
use loadhub::static_assets::load_file;
use loadhub::static_assets::validate_path;
use loadhub::static_assets::EmbeddedFile;
use loadhub::stats;
use loadhub::stats::Snapshot;
use loadhub::stats::Stats;
use loadhub::stats::StatsCollector;
use loadhub::webserver::AllStatsResponse;
use loadhub::webserver::SnapshotResponse;
use loadhub::webserver::StartCommandRequest;
use loadhub::worker::clamp_millis;
use loadhub::worker::handle_message;
use loadhub::worker::plan_request;
use loadhub::worker::prepare_attempt;
use loadhub::worker::DispatchAction;
use loadhub::worker::Dispatcher;
use loadhub::worker::Scheduler;
use loadhub::worker::SessionError;
use loadhub::worker::WorkerAction;

fn url_spec(url: &str) -> RequestSpec {
    RequestSpec {
        version: HttpVersion::Http11,
        method: RequestMethod::GET,
        url: String::from(url),
        body: None,
        headers: vec![],
        random_querystring: None,
        random_header: None,
    }
}

#[test]
fn in_order_cursor_walks_the_list() {
    let reqs = vec![url_spec("A"), url_spec("B"), url_spec("C")];
    let mut sched = Scheduler::new(reqs, AttackStrategy::InOrder, 1);
    let mut order = Vec::new();
    for _ in 0..6 {
        let (index, _id) = sched.admit_task();
        order.push(index);
        sched.complete_task();
    }
    assert_eq!(order, vec![0, 1, 2, 0, 1, 2]);
}

#[test]
fn permits_bound_in_flight_tasks() {
    let reqs = vec![url_spec("A")];
    let mut sched = Scheduler::new(reqs, AttackStrategy::Random, 2);
    assert_eq!(sched.max_tasks, 2);
    assert_eq!(sched.permits, 2);
    let _ = sched.admit_task();
    let _ = sched.admit_task();
    assert_eq!(sched.permits, 0);
    assert_eq!(sched.in_flight, 2);
    sched.complete_task();
    assert_eq!(sched.permits, 1);
    assert_eq!(sched.in_flight, 1);
}

#[test]
fn concurrency_cap_is_clamped_to_one() {
    let sched = Scheduler::new(vec![url_spec("A")], AttackStrategy::Random, 0);
    assert_eq!(sched.max_tasks, 1);
}

#[test]
fn empty_plan_yields_no_scheduler() {
    assert!(Scheduler::try_new(vec![], AttackStrategy::Random, 4).is_none());
    let sched = Scheduler::try_new(vec![url_spec("A")], AttackStrategy::InOrder, 4).unwrap();
    assert_eq!(sched.max_tasks, 4);
    assert_eq!(sched.permits, 4);
}

#[test]
fn scheduler_ids_advance_per_task() {
    let mut sched = Scheduler::new(vec![url_spec("A")], AttackStrategy::InOrder, 3);
    let (_, id0) = sched.admit_task();
    let (_, id1) = sched.admit_task();
    assert_eq!(id0, 0);
    assert_eq!(id1, 1);
}

#[test]
fn scheduler_publishes_gauges() {
    let mut stats = Stats::new();
    stats.start(0);
    let mut sched = Scheduler::new(vec![url_spec("A")], AttackStrategy::Random, 4);
    let _ = sched.admit_task();
    sched.publish_gauges(&mut stats);
    let st = stats.as_message(1);
    assert_eq!(st.tasks, 3);
    assert_eq!(st.task_queue, 1);
    assert_eq!(st.tasks_max, 4);
}

#[test]
fn dispatcher_start_then_reset_clears_mid_run() {
    let mut stats = Stats::new();
    let mut disp = Dispatcher::new();
    let start = Command::start(vec![url_spec("http://127.0.0.1:9/")], AttackStrategy::InOrder, 2);
    let a = disp.step(&mut stats, &start, 100);
    assert_eq!(a, DispatchAction::Spawn { signal_prior: false });
    stats.record(Some(200), 12);
    let reset = Command::reset();
    let a = disp.step(&mut stats, &reset, 300);
    assert_eq!(a, DispatchAction::Halt { await_prior: true });
    // The statistics are untouched until the drain completed: a task
    // still draining records into the old run.
    assert_eq!(stats.as_message(350).count, 1);
    stats.record(Some(200), 40);
    // After the drain, the reset clears everything the run recorded.
    Dispatcher::settle(&mut stats, &reset, 400);
    let st = stats.as_message(450);
    assert!(matches!(st.state, ReportedState::Idle));
    assert_eq!(st.count, 0);
    assert_eq!(st.min, 0);
    assert!(st.elapsed.is_none());
}

#[test]
fn dispatcher_stop_elapsed_covers_the_drain() {
    let mut stats = Stats::new();
    let mut disp = Dispatcher::new();
    let start = Command::start(vec![url_spec("http://127.0.0.1:9/")], AttackStrategy::Random, 1);
    disp.step(&mut stats, &start, 100);
    let stop = Command::stop();
    let a = disp.step(&mut stats, &stop, 200);
    assert_eq!(a, DispatchAction::Halt { await_prior: true });
    // Still busy while the drain runs; a draining task is counted.
    assert!(matches!(stats.as_message(250).state, ReportedState::Busy));
    stats.record(Some(200), 30);
    Dispatcher::settle(&mut stats, &stop, 500);
    let st = stats.as_message(900);
    assert!(matches!(st.state, ReportedState::Idle));
    assert_eq!(st.elapsed, Some(ElapsedTime { secs: 0, nanos: 400000000 }));
    assert_eq!(st.count, 1);
}

#[test]
fn dispatcher_stop_is_idempotent_when_idle() {
    let mut stats = Stats::new();
    let mut disp = Dispatcher::new();
    let stop = Command::stop();
    let a = disp.step(&mut stats, &stop, 50);
    assert_eq!(a, DispatchAction::Halt { await_prior: false });
    Dispatcher::settle(&mut stats, &stop, 50);
    let st1 = stats.as_message(60);
    let a = disp.step(&mut stats, &stop, 50);
    assert_eq!(a, DispatchAction::Halt { await_prior: false });
    Dispatcher::settle(&mut stats, &stop, 50);
    let st2 = stats.as_message(60);
    assert!(matches!(st1.state, ReportedState::Idle));
    assert!(matches!(st2.state, ReportedState::Idle));
    assert_eq!(st1.elapsed, st2.elapsed);
    assert_eq!(st1.count, st2.count);
}

#[test]
fn reconnecting_worker_sees_only_the_latest_command() {
    // Latest-wins delivery: a worker that reconnects after a rapid
    // Start/Stop pair observes only the Stop and stays idle.
    let mut stats = Stats::new();
    let mut disp = Dispatcher::new();
    let stop = Command::stop();
    let a = disp.step(&mut stats, &stop, 10);
    assert_eq!(a, DispatchAction::Halt { await_prior: false });
    Dispatcher::settle(&mut stats, &stop, 10);
    let st = stats.as_message(20);
    assert!(matches!(st.state, ReportedState::Idle));
}

#[test]
fn disconnect_preserved_until_prune() {
    let mut col = StatsCollector::new();
    let a = col.connect(String::from("10.0.0.1:4000"), 100);
    let b = col.connect(String::from("10.0.0.2:4000"), 110);
    assert_eq!(a, 0);
    assert_eq!(b, 1);
    col.disconnect(a, 200);
    assert_eq!(col.records.len(), 2);
    assert!(col.records[0].is_disconnected());
    assert!(!col.records[1].is_disconnected());
    col.prune_disconnected();
    assert_eq!(col.records.len(), 1);
    assert_eq!(col.records[0].id, b);
}

#[test]
fn prune_without_disconnected_sessions_is_a_noop() {
    let mut col = StatsCollector::new();
    col.connect(String::from("10.0.0.1:4000"), 100);
    col.connect(String::from("10.0.0.2:4000"), 110);
    col.prune_disconnected();
    assert_eq!(col.records.len(), 2);
}

#[test]
fn insert_unknown_session_reports_an_error() {
    let mut col = StatsCollector::new();
    let status = loadhub::messages::Status {
        hostname: None,
        socket: None,
        state: ReportedState::Idle,
        elapsed: None,
        tasks: 0,
        task_queue: 0,
        tasks_max: 0,
        min: 0,
        max: 0,
        mean: 0,
        stdev: 0,
        median: 0,
        p90: 0,
        count: 0,
        count_1xx: 0,
        count_2xx: 0,
        count_3xx: 0,
        count_4xx: 0,
        count_5xx: 0,
        count_fail: 0,
    };
    match col.insert(99, &status, 10) {
        Err(e) => {
            assert_eq!(e, stats::CollectorError::UnknownSession { id: 99 });
            assert_eq!(e.message(), "session 99 not found in current clients");
        },
        Ok(_) => panic!("unknown ids are rejected"),
    }
    let id = col.connect(String::from("10.0.0.1:4000"), 5);
    assert!(col.insert(id, &status, 10).is_ok());
    assert_eq!(col.records[0].snapshots.len(), 1);
}

#[test]
fn history_is_bounded_and_newest_first() {
    let mut col = StatsCollector::new();
    let id = col.connect(String::from("10.0.0.1:4000"), 0);
    let mut status = loadhub::messages::Status {
        hostname: Some(String::from("w")),
        socket: None,
        state: ReportedState::Busy,
        elapsed: None,
        tasks: 0,
        task_queue: 0,
        tasks_max: 0,
        min: 0,
        max: 0,
        mean: 0,
        stdev: 0,
        median: 0,
        p90: 0,
        count: 0,
        count_1xx: 0,
        count_2xx: 0,
        count_3xx: 0,
        count_4xx: 0,
        count_5xx: 0,
        count_fail: 0,
    };
    for i in 0..105u32 {
        status.count = i;
        col.insert(id, &status, 1000 + i as u64).unwrap();
    }
    let rec = &col.records[0];
    assert_eq!(rec.snapshots.len(), 100);
    assert_eq!(rec.snapshots[0].timestamp, 1104);
    assert_eq!(rec.snapshots[0].count, 104);
    for i in 1..rec.snapshots.len() {
        assert!(rec.snapshots[0].timestamp >= rec.snapshots[i].timestamp);
    }
}

#[test]
fn worker_frames_drive_the_session() {
    assert!(matches!(
        handle_message(&Frame::Ping(vec![])),
        Ok(WorkerAction::Continue)
    ));
    assert!(matches!(handle_message(&Frame::Close), Ok(WorkerAction::Exit)));
    assert!(matches!(
        handle_message(&Frame::Binary(vec![1])),
        Err(SessionError::Protocol)
    ));
    assert!(matches!(
        handle_message(&Frame::Text(String::from("nonsense"))),
        Err(SessionError::Decode)
    ));
    match handle_message(&Frame::Text(String::from("\"Stop\""))) {
        Ok(WorkerAction::Dispatch(Command::Stop)) => {},
        _ => panic!("text frames carry commands"),
    }
}

#[test]
fn coordinator_stamps_the_peer_address() {
    let status = loadhub::messages::Status {
        hostname: Some(String::from("w")),
        socket: None,
        state: ReportedState::Idle,
        elapsed: None,
        tasks: 0,
        task_queue: 0,
        tasks_max: 0,
        min: 0,
        max: 0,
        mean: 0,
        stdev: 0,
        median: 0,
        p90: 0,
        count: 7,
        count_1xx: 0,
        count_2xx: 7,
        count_3xx: 0,
        count_4xx: 0,
        count_5xx: 0,
        count_fail: 0,
    };
    let text = status.to_text();
    match handle_incoming_message(&Frame::Text(text), "10.1.2.3:5556", 42) {
        Ok(CoordinatorAction::Deliver { id, status: got }) => {
            assert_eq!(id, 42);
            assert_eq!(got.socket.as_deref(), Some("10.1.2.3:5556"));
            assert_eq!(got.count, 7);
        },
        _ => panic!("status frames are delivered"),
    }
    assert!(matches!(
        handle_incoming_message(&Frame::Close, "10.1.2.3:5556", 42),
        Ok(CoordinatorAction::Exit)
    ));
    assert!(matches!(
        handle_incoming_message(&Frame::Text(String::from("{")), "x", 1),
        Err(SessionError::Decode)
    ));
}

#[test]
fn effective_url_appends_the_token() {
    let mut spec = url_spec("http://host/path");
    spec.random_querystring = Some(String::from("bust"));
    let p = plan_request(&spec, "TOKEN", "H");
    assert_eq!(p.url, "http://host/path?bust=TOKEN");

    spec.url = String::from("http://host/path?a=1");
    let p = plan_request(&spec, "TOKEN", "H");
    assert_eq!(p.url, "http://host/path?a=1&bust=TOKEN");

    spec.url = String::from("http://host/path?a=1#frag");
    let p = plan_request(&spec, "TOKEN", "H");
    assert_eq!(p.url, "http://host/path?a=1&bust=TOKEN#frag");
}

#[test]
fn plan_request_adds_the_random_header() {
    let mut spec = url_spec("http://host/");
    spec.headers = vec![(String::from("accept"), String::from("*/*"))];
    spec.random_header = Some(String::from("x-nonce"));
    let p = plan_request(&spec, "Q", "NONCE");
    assert_eq!(p.url, "http://host/");
    assert_eq!(p.headers.len(), 2);
    assert_eq!(p.headers[1], (String::from("x-nonce"), String::from("NONCE")));
    assert!(p.body.is_none());

    let p = prepare_attempt(&spec);
    assert_eq!(p.headers.len(), 2);
    assert_eq!(p.headers[1].1.len(), 36);
}

#[test]
fn clamp_millis_saturates() {
    assert_eq!(clamp_millis(1234), 1234);
    assert_eq!(clamp_millis(u64::MAX as u128), u64::MAX);
    assert_eq!(clamp_millis(u64::MAX as u128 + 5), u64::MAX);
}

#[test]
fn rates_are_derived_from_count_and_elapsed() {
    let snap = Snapshot {
        timestamp: 0,
        state: stats::WorkerState::Busy,
        elapsed: Some(ElapsedTime { secs: 2, nanos: 0 }),
        tasks: 1,
        task_queue: 0,
        tasks_max: 2,
        min: 1,
        max: 9,
        mean: 4,
        stdev: 2,
        median: 4,
        p90: 9,
        count: 10,
        count_1xx: 0,
        count_2xx: 10,
        count_3xx: 0,
        count_4xx: 0,
        count_5xx: 0,
        count_fail: 0,
    };
    let resp = SnapshotResponse::from(&snap);
    assert_eq!(resp.elapsed, Some(2000));
    assert_eq!(resp.rate_count, 5000);
    assert_eq!(resp.rate_2xx, 5000);
    assert_eq!(resp.rate_fail, 0);
}

#[test]
fn stats_listing_projects_every_record() {
    let mut col = StatsCollector::new();
    col.connect(String::from("10.0.0.1:4000"), 0);
    col.connect(String::from("10.0.0.2:4000"), 5);
    let all = AllStatsResponse::from_records(&col.records);
    assert_eq!(all.items.len(), 2);
    assert_eq!(all.items[0].id, 0);
    assert_eq!(all.items[0].socket, "10.0.0.1:4000");
    assert!(all.items[0].latest.is_none());
    assert!(matches!(all.items[1].state, stats::WorkerState::Connected));
}

#[test]
fn start_request_defaults_apply() {
    let req = StartCommandRequest {
        urls: vec![String::from("http://a/"), String::from("http://b/")],
        strategy: None,
        max_concurrency: None,
    };
    match req.into_command() {
        Command::Start { requests, strategy, max_concurrency } => {
            assert_eq!(requests.len(), 2);
            assert_eq!(requests[0].url, "http://a/");
            assert!(matches!(requests[0].method, RequestMethod::GET));
            assert!(matches!(strategy, AttackStrategy::Random));
            assert_eq!(max_concurrency, 50);
        },
        _ => panic!("start request maps to a start command"),
    }
}

#[test]
fn embedded_lookup_finds_the_first_match() {
    let files = vec![
        EmbeddedFile {
            name: String::from("/static/index.html"),
            contents: String::from("<html>"),
        },
        EmbeddedFile { name: String::from("/static/bundle.js"), contents: String::from("js") },
    ];
    assert_eq!(load_file(&files, "/static/bundle.js").as_deref(), Some("js"));
    assert_eq!(load_file(&files, "/static/index.html").as_deref(), Some("<html>"));
    assert!(load_file(&files, "/static/missing").is_none());
}

#[test]
fn path_validation_blocks_traversal() {
    assert_eq!(validate_path("/static/app.js").as_deref(), Some("/static/app.js"));
    assert_eq!(validate_path("hello%20world").as_deref(), Some("hello world"));
    assert!(validate_path("/static/../secret").is_none());
    assert!(validate_path("..").is_none());
    assert!(validate_path("%2e%2e/etc/passwd").is_none());
    assert!(validate_path("a\\b").is_none());
    assert_eq!(validate_path("a.b/..c").as_deref(), None);
    assert_eq!(validate_path("a.b/.c").as_deref(), Some("a.b/.c"));
}
