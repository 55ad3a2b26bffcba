//! The message codec on concrete values: round trips, exact encodings,
//! escaping, and interoperability with a general-purpose JSON parser.
use loadhub::messages::AttackStrategy;
use loadhub::messages::Command;
use loadhub::messages::ElapsedTime;
use loadhub::messages::Frame;
use loadhub::messages::HttpVersion;
use loadhub::messages::RequestMethod;
use loadhub::messages::RequestSpec;
use loadhub::messages::Status;
use loadhub::messages::WorkerState;

fn sample_request() -> RequestSpec {
    RequestSpec {
        version: HttpVersion::Http2,
        method: RequestMethod::POST,
        url: String::from("https://example.test/load?x=1"),
        body: Some(String::from("payload \"quoted\" and \\slash\\")),
        headers: vec![
            (String::from("accept"), String::from("*/*")),
            (String::from("x-tab"), String::from("a\tb")),
        ],
        random_querystring: Some(String::from("cache_bust")),
        random_header: None,
    }
}

fn sample_status() -> Status {
    Status {
        hostname: Some(String::from("worker-7")),
        socket: None,
        state: WorkerState::Busy,
        elapsed: Some(ElapsedTime { secs: 2, nanos: 500000000 }),
        tasks: 3,
        task_queue: 4,
        tasks_max: 50,
        min: 1,
        max: 900,
        mean: 212,
        stdev: 80,
        median: 200,
        p90: 700,
        count: 1000,
        count_1xx: 0,
        count_2xx: 990,
        count_3xx: 4,
        count_4xx: 3,
        count_5xx: 2,
        count_fail: 1,
    }
}

#[test]
fn command_stop_encodes_as_tagged_string() {
    assert_eq!(Command::stop().to_text(), "\"Stop\"");
    assert_eq!(Command::reset().to_text(), "\"Reset\"");
}

#[test]
fn command_round_trip_all_variants() {
    for cmd in [
        Command::stop(),
        Command::reset(),
        Command::start(vec![sample_request()], AttackStrategy::InOrder, 7),
        Command::start(vec![], AttackStrategy::Random, 0),
    ] {
        let text = cmd.to_text();
        let back = Command::parse_text(&text).expect("round trip must parse");
        assert_eq!(back.to_text(), text);
    }
}

#[test]
fn command_start_round_trip_preserves_fields() {
    let cmd = Command::start(vec![sample_request()], AttackStrategy::InOrder, 7);
    let back = Command::parse_text(&cmd.to_text()).unwrap();
    match back {
        Command::Start { requests, strategy, max_concurrency } => {
            assert_eq!(requests.len(), 1);
            assert!(matches!(strategy, AttackStrategy::InOrder));
            assert_eq!(max_concurrency, 7);
            let r = &requests[0];
            assert!(matches!(r.version, HttpVersion::Http2));
            assert!(matches!(r.method, RequestMethod::POST));
            assert_eq!(r.url, "https://example.test/load?x=1");
            assert_eq!(r.body.as_deref(), Some("payload \"quoted\" and \\slash\\"));
            assert_eq!(r.headers.len(), 2);
            assert_eq!(r.headers[1].1, "a\tb");
            assert_eq!(r.random_querystring.as_deref(), Some("cache_bust"));
            assert!(r.random_header.is_none());
        },
        _ => panic!("wrong variant"),
    }
}

#[test]
fn status_round_trip_is_identity() {
    let st = sample_status();
    let text = st.to_text();
    let back = Status::parse_text(&text).expect("status must parse");
    assert_eq!(back.to_text(), text);
    assert_eq!(back.hostname.as_deref(), Some("worker-7"));
    assert!(back.socket.is_none());
    assert!(matches!(back.state, WorkerState::Busy));
    assert_eq!(back.elapsed, Some(ElapsedTime { secs: 2, nanos: 500000000 }));
    assert_eq!(back.count_2xx, 990);
    assert_eq!(back.p90, 700);
}

#[test]
fn encoder_output_is_wellformed_json() {
    let cmd = Command::start(vec![sample_request()], AttackStrategy::Random, 50);
    let v: serde_json::Value = serde_json::from_str(&cmd.to_text()).expect("valid JSON");
    assert_eq!(v["Start"]["max_concurrency"], serde_json::Value::from(50u32));
    assert_eq!(v["Start"]["strategy"], serde_json::Value::from("Random"));
    assert_eq!(v["Start"]["requests"][0]["method"], serde_json::Value::from("POST"));
    assert_eq!(
        v["Start"]["requests"][0]["headers"]["x-tab"],
        serde_json::Value::from("a\tb"),
    );

    let st = sample_status();
    let v: serde_json::Value = serde_json::from_str(&st.to_text()).expect("valid JSON");
    assert_eq!(v["state"], serde_json::Value::from("Busy"));
    assert_eq!(v["elapsed"]["secs"], serde_json::Value::from(2u64));
    assert_eq!(v["count_fail"], serde_json::Value::from(1u32));
}

#[test]
fn parser_accepts_fractional_latency_summaries() {
    let st = sample_status();
    let text = st.to_text().replace("\"mean\":212", "\"mean\":212.75");
    let back = Status::parse_text(&text).expect("fractional mean accepted");
    assert_eq!(back.mean, 212);
}

#[test]
fn parser_rejects_trailing_input_and_garbage() {
    assert!(Command::parse_text("\"Stop\" ").is_none());
    assert!(Command::parse_text("\"Halt\"").is_none());
    assert!(Command::parse_text("{\"Start\":").is_none());
    assert!(Command::parse_text("").is_none());
    assert!(Status::parse_text("{}").is_none());
}

#[test]
fn string_escapes_round_trip() {
    let spec = RequestSpec {
        version: HttpVersion::Http11,
        method: RequestMethod::GET,
        url: String::from("q\"uote\\back\nnewline\u{1}ctl\u{263a}smile"),
        body: None,
        headers: vec![],
        random_querystring: None,
        random_header: None,
    };
    let cmd = Command::start(vec![spec], AttackStrategy::Random, 1);
    let back = Command::parse_text(&cmd.to_text()).unwrap();
    match back {
        Command::Start { requests, .. } => {
            assert_eq!(requests[0].url, "q\"uote\\back\nnewline\u{1}ctl\u{263a}smile");
        },
        _ => panic!("wrong variant"),
    }
}

#[test]
fn control_characters_use_unicode_escapes() {
    let spec = RequestSpec {
        version: HttpVersion::Http11,
        method: RequestMethod::GET,
        url: String::from("a\nb"),
        body: None,
        headers: vec![],
        random_querystring: None,
        random_header: None,
    };
    let cmd = Command::start(vec![spec], AttackStrategy::Random, 1);
    let text = cmd.to_text();
    assert!(text.contains("a\\u000ab"));
    let v: serde_json::Value = serde_json::from_str(&text).unwrap();
    assert_eq!(v["Start"]["requests"][0]["url"], serde_json::Value::from("a\nb"));
}

#[test]
fn as_message_wraps_text_frames() {
    match Command::stop().as_message() {
        Frame::Text(t) => assert_eq!(t, "\"Stop\""),
        _ => panic!("commands travel as text frames"),
    }
    match sample_status().as_message() {
        Frame::Text(t) => assert!(t.starts_with("{\"hostname\":")),
        _ => panic!("status travels as text frames"),
    }
}

#[test]
fn status_null_fields_round_trip() {
    let mut st = sample_status();
    st.hostname = None;
    st.elapsed = None;
    let back = Status::parse_text(&st.to_text()).unwrap();
    assert!(back.hostname.is_none());
    assert!(back.elapsed.is_none());
}
