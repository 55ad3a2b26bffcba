//! The message schema shared by coordinator and workers: attack plans,
//! commands, and status snapshots, together with their JSON text codec.
//!
//! Commands are encoded as a tagged JSON value (`"Stop"`, `"Reset"`, or
//! `{"Start":{...}}`); status snapshots as a flat JSON object.  The
//! codec is verified: round-trip lemmas prove that parsing an encoded
//! value recovers it exactly.
use vstd::prelude::*;

use crate::json::dec_digits;
use crate::json::digits_end;
use crate::json::is_digit_exec;
use crate::json::lemma_digits_end;
use crate::json::lemma_digits_end_is;
use crate::json::expect_lit;
use crate::json::is_digit;
use crate::json::lemma_expect_prefix;
use crate::json::lemma_string_round_trip;
use crate::json::lemma_string_shortens;
use crate::json::lemma_u64_round_trip;
use crate::json::parse_string;
use crate::json::parse_u64;
use crate::json::push_lit;
use crate::json::push_string;
use crate::json::push_u64;
use crate::json::spec_enc_str;
use crate::json::spec_expect;
use crate::json::spec_parse_string;
use crate::json::spec_parse_u32;
use crate::json::spec_parse_u64;
use crate::json::str_eq;

verus! {

// ---------------------------------------------------------------------
// Data model
// ---------------------------------------------------------------------

/// How a worker walks the request list.
#[derive(Clone, Copy, PartialEq, Eq, Structural, Debug)]
pub enum AttackStrategy {
    Random,
    InOrder,
}

#[derive(Clone, Copy, PartialEq, Eq, Structural, Debug)]
pub enum RequestMethod {
    GET,
    POST,
    PUT,
    DELETE,
    HEAD,
    OPTIONS,
    CONNECT,
    PATCH,
    TRACE,
}

#[derive(Clone, Copy, PartialEq, Eq, Structural, Debug)]
pub enum HttpVersion {
    Http11,
    Http2,
}

/// A worker is Idle when no scheduler runs, Busy while one does.
#[derive(Clone, Copy, PartialEq, Eq, Structural, Debug)]
pub enum WorkerState {
    Idle,
    Busy,
}

/// A wall-clock span, in the wire form used for status snapshots.
#[derive(Clone, Copy, PartialEq, Eq, Structural, Debug)]
pub struct ElapsedTime {
    pub secs: u64,
    pub nanos: u32,
}

/// One target of an attack plan.
#[derive(Clone, Debug)]
pub struct RequestSpec {
    pub version: HttpVersion,
    pub method: RequestMethod,
    pub url: String,
    pub body: Option<String>,
    pub headers: Vec<(String, String)>,
    pub random_querystring: Option<String>,
    pub random_header: Option<String>,
}

/// An operator command, broadcast to every connected worker.
#[derive(Clone, Debug)]
pub enum Command {
    Stop,
    Start { requests: Vec<RequestSpec>, strategy: AttackStrategy, max_concurrency: u32 },
    Reset,
}

/// A worker's statistics snapshot, sent upstream periodically.  The
/// `mean` and `stdev` summaries are carried in whole milliseconds.
#[derive(Clone, Debug)]
pub struct Status {
    pub hostname: Option<String>,
    pub socket: Option<String>,
    pub state: WorkerState,
    pub elapsed: Option<ElapsedTime>,
    pub tasks: u32,
    pub task_queue: u32,
    pub tasks_max: u32,
    pub min: u64,
    pub max: u64,
    pub mean: u64,
    pub stdev: u64,
    pub median: u64,
    pub p90: u64,
    pub count: u32,
    pub count_1xx: u32,
    pub count_2xx: u32,
    pub count_3xx: u32,
    pub count_4xx: u32,
    pub count_5xx: u32,
    pub count_fail: u32,
}

// ---------------------------------------------------------------------
// Mathematical views
// ---------------------------------------------------------------------

#[verifier::ext_equal]
pub struct RequestSpecV {
    pub version: HttpVersion,
    pub method: RequestMethod,
    pub url: Seq<char>,
    pub body: Option<Seq<char>>,
    pub headers: Seq<(Seq<char>, Seq<char>)>,
    pub random_querystring: Option<Seq<char>>,
    pub random_header: Option<Seq<char>>,
}

#[verifier::ext_equal]
pub enum CommandV {
    Stop,
    Start { requests: Seq<RequestSpecV>, strategy: AttackStrategy, max_concurrency: u32 },
    Reset,
}

#[verifier::ext_equal]
pub struct StatusV {
    pub hostname: Option<Seq<char>>,
    pub socket: Option<Seq<char>>,
    pub state: WorkerState,
    pub elapsed: Option<ElapsedTime>,
    pub tasks: u32,
    pub task_queue: u32,
    pub tasks_max: u32,
    pub min: u64,
    pub max: u64,
    pub mean: u64,
    pub stdev: u64,
    pub median: u64,
    pub p90: u64,
    pub count: u32,
    pub count_1xx: u32,
    pub count_2xx: u32,
    pub count_3xx: u32,
    pub count_4xx: u32,
    pub count_5xx: u32,
    pub count_fail: u32,
}

pub open spec fn view_opt_string(o: Option<String>) -> Option<Seq<char>> {
    match o {
        Some(s) => Some(s@),
        None => None,
    }
}

impl View for RequestSpec {
    type V = RequestSpecV;

    open spec fn view(&self) -> RequestSpecV {
        RequestSpecV {
            version: self.version,
            method: self.method,
            url: self.url@,
            body: view_opt_string(self.body),
            headers: headers_view(self.headers@),
            random_querystring: view_opt_string(self.random_querystring),
            random_header: view_opt_string(self.random_header),
        }
    }
}

impl View for Command {
    type V = CommandV;

    open spec fn view(&self) -> CommandV {
        match self {
            Command::Stop => CommandV::Stop,
            Command::Reset => CommandV::Reset,
            Command::Start { requests, strategy, max_concurrency } => CommandV::Start {
                requests: reqs_view(requests@),
                strategy: *strategy,
                max_concurrency: *max_concurrency,
            },
        }
    }
}

impl View for Status {
    type V = StatusV;

    open spec fn view(&self) -> StatusV {
        StatusV {
            hostname: view_opt_string(self.hostname),
            socket: view_opt_string(self.socket),
            state: self.state,
            elapsed: self.elapsed,
            tasks: self.tasks,
            task_queue: self.task_queue,
            tasks_max: self.tasks_max,
            min: self.min,
            max: self.max,
            mean: self.mean,
            stdev: self.stdev,
            median: self.median,
            p90: self.p90,
            count: self.count,
            count_1xx: self.count_1xx,
            count_2xx: self.count_2xx,
            count_3xx: self.count_3xx,
            count_4xx: self.count_4xx,
            count_5xx: self.count_5xx,
            count_fail: self.count_fail,
        }
    }
}

// ---------------------------------------------------------------------
// Enum codecs
// ---------------------------------------------------------------------

pub open spec fn strategy_name(s: AttackStrategy) -> Seq<char> {
    match s {
        AttackStrategy::Random => "Random"@,
        AttackStrategy::InOrder => "InOrder"@,
    }
}

pub open spec fn spec_enc_strategy(s: AttackStrategy) -> Seq<char> {
    spec_enc_str(strategy_name(s))
}

pub open spec fn spec_parse_strategy(s: Seq<char>) -> Option<(AttackStrategy, Seq<char>)> {
    match spec_parse_string(s) {
        Some((name, rest)) => if name == "Random"@ {
            Some((AttackStrategy::Random, rest))
        } else if name == "InOrder"@ {
            Some((AttackStrategy::InOrder, rest))
        } else {
            None
        },
        None => None,
    }
}

pub proof fn lemma_strategy_round_trip(v: AttackStrategy, tail: Seq<char>)
    ensures
        spec_parse_strategy(spec_enc_strategy(v) + tail) == Some((v, tail)),
{
    reveal_strlit("Random");
    reveal_strlit("InOrder");
    lemma_string_round_trip(strategy_name(v), tail);
}

pub open spec fn method_name(m: RequestMethod) -> Seq<char> {
    match m {
        RequestMethod::GET => "GET"@,
        RequestMethod::POST => "POST"@,
        RequestMethod::PUT => "PUT"@,
        RequestMethod::DELETE => "DELETE"@,
        RequestMethod::HEAD => "HEAD"@,
        RequestMethod::OPTIONS => "OPTIONS"@,
        RequestMethod::CONNECT => "CONNECT"@,
        RequestMethod::PATCH => "PATCH"@,
        RequestMethod::TRACE => "TRACE"@,
    }
}

pub open spec fn spec_enc_method(m: RequestMethod) -> Seq<char> {
    spec_enc_str(method_name(m))
}

pub open spec fn spec_parse_method(s: Seq<char>) -> Option<(RequestMethod, Seq<char>)> {
    match spec_parse_string(s) {
        Some((name, rest)) => if name == "GET"@ {
            Some((RequestMethod::GET, rest))
        } else if name == "POST"@ {
            Some((RequestMethod::POST, rest))
        } else if name == "PUT"@ {
            Some((RequestMethod::PUT, rest))
        } else if name == "DELETE"@ {
            Some((RequestMethod::DELETE, rest))
        } else if name == "HEAD"@ {
            Some((RequestMethod::HEAD, rest))
        } else if name == "OPTIONS"@ {
            Some((RequestMethod::OPTIONS, rest))
        } else if name == "CONNECT"@ {
            Some((RequestMethod::CONNECT, rest))
        } else if name == "PATCH"@ {
            Some((RequestMethod::PATCH, rest))
        } else if name == "TRACE"@ {
            Some((RequestMethod::TRACE, rest))
        } else {
            None
        },
        None => None,
    }
}

pub proof fn lemma_method_round_trip(m: RequestMethod, tail: Seq<char>)
    ensures
        spec_parse_method(spec_enc_method(m) + tail) == Some((m, tail)),
{
    reveal_strlit("GET");
    reveal_strlit("POST");
    reveal_strlit("PUT");
    reveal_strlit("DELETE");
    reveal_strlit("HEAD");
    reveal_strlit("OPTIONS");
    reveal_strlit("CONNECT");
    reveal_strlit("PATCH");
    reveal_strlit("TRACE");
    assert(("PUT"@)[0] != ("GET"@)[0]);
    assert(("HEAD"@)[0] != ("POST"@)[0]);
    assert(("CONNECT"@)[0] != ("OPTIONS"@)[0]);
    assert(("TRACE"@)[0] != ("PATCH"@)[0]);
    lemma_string_round_trip(method_name(m), tail);
}

pub open spec fn version_name(v: HttpVersion) -> Seq<char> {
    match v {
        HttpVersion::Http11 => "Http11"@,
        HttpVersion::Http2 => "Http2"@,
    }
}

pub open spec fn spec_enc_version(v: HttpVersion) -> Seq<char> {
    spec_enc_str(version_name(v))
}

pub open spec fn spec_parse_version(s: Seq<char>) -> Option<(HttpVersion, Seq<char>)> {
    match spec_parse_string(s) {
        Some((name, rest)) => if name == "Http11"@ {
            Some((HttpVersion::Http11, rest))
        } else if name == "Http2"@ {
            Some((HttpVersion::Http2, rest))
        } else {
            None
        },
        None => None,
    }
}

pub proof fn lemma_version_round_trip(v: HttpVersion, tail: Seq<char>)
    ensures
        spec_parse_version(spec_enc_version(v) + tail) == Some((v, tail)),
{
    reveal_strlit("Http11");
    reveal_strlit("Http2");
    lemma_string_round_trip(version_name(v), tail);
}

pub open spec fn state_name(w: WorkerState) -> Seq<char> {
    match w {
        WorkerState::Idle => "Idle"@,
        WorkerState::Busy => "Busy"@,
    }
}

pub open spec fn spec_enc_state(w: WorkerState) -> Seq<char> {
    spec_enc_str(state_name(w))
}

pub open spec fn spec_parse_state(s: Seq<char>) -> Option<(WorkerState, Seq<char>)> {
    match spec_parse_string(s) {
        Some((name, rest)) => if name == "Idle"@ {
            Some((WorkerState::Idle, rest))
        } else if name == "Busy"@ {
            Some((WorkerState::Busy, rest))
        } else {
            None
        },
        None => None,
    }
}

pub proof fn lemma_state_round_trip(w: WorkerState, tail: Seq<char>)
    ensures
        spec_parse_state(spec_enc_state(w) + tail) == Some((w, tail)),
{
    reveal_strlit("Idle");
    reveal_strlit("Busy");
    assert(("Busy"@)[0] != ("Idle"@)[0]);
    lemma_string_round_trip(state_name(w), tail);
}

// ---------------------------------------------------------------------
// Optional strings and elapsed times
// ---------------------------------------------------------------------

pub open spec fn spec_enc_opt_str(o: Option<Seq<char>>) -> Seq<char> {
    match o {
        None => "null"@,
        Some(v) => spec_enc_str(v),
    }
}

pub open spec fn spec_parse_opt_str(s: Seq<char>) -> Option<(Option<Seq<char>>, Seq<char>)> {
    if 0 < s.len() && s[0] == 'n' {
        match spec_expect(s, "null"@) {
            Some(rest) => Some((None, rest)),
            None => None,
        }
    } else {
        match spec_parse_string(s) {
            Some((v, rest)) => Some((Some(v), rest)),
            None => None,
        }
    }
}

pub proof fn lemma_opt_str_round_trip(o: Option<Seq<char>>, tail: Seq<char>)
    ensures
        spec_parse_opt_str(spec_enc_opt_str(o) + tail) == Some((o, tail)),
{
    reveal_strlit("null");
    match o {
        None => {
            let s = "null"@ + tail;
            assert(s[0] == 'n');
            lemma_expect_prefix("null"@, tail);
        },
        Some(v) => {
            let s = spec_enc_str(v) + tail;
            assert(s[0] == '"');
            lemma_string_round_trip(v, tail);
        },
    }
}

pub open spec fn spec_enc_elapsed(e: ElapsedTime) -> Seq<char> {
    "{\"secs\":"@ + dec_digits(e.secs as nat) + ",\"nanos\":"@ + dec_digits(e.nanos as nat)
        + "}"@
}

pub open spec fn spec_parse_elapsed(s: Seq<char>) -> Option<(ElapsedTime, Seq<char>)> {
    match spec_expect(s, "{\"secs\":"@) {
        Some(s1) => match spec_parse_u64(s1) {
            Some((secs, s2)) => match spec_expect(s2, ",\"nanos\":"@) {
                Some(s3) => match spec_parse_u32(s3) {
                    Some((nanos, s4)) => match spec_expect(s4, "}"@) {
                        Some(s5) => Some((ElapsedTime { secs, nanos }, s5)),
                        None => None,
                    },
                    None => None,
                },
                None => None,
            },
            None => None,
        },
        None => None,
    }
}

pub proof fn lemma_elapsed_round_trip(e: ElapsedTime, tail: Seq<char>)
    ensures
        spec_parse_elapsed(spec_enc_elapsed(e) + tail) == Some((e, tail)),
{
    reveal_strlit("{\"secs\":");
    reveal_strlit(",\"nanos\":");
    reveal_strlit("}");
    let t4 = "}"@ + tail;
    let t3 = dec_digits(e.nanos as nat) + t4;
    let t2 = ",\"nanos\":"@ + t3;
    let t1 = dec_digits(e.secs as nat) + t2;
    let s = spec_enc_elapsed(e) + tail;
    assert(s =~= "{\"secs\":"@ + t1);
    lemma_expect_prefix("{\"secs\":"@, t1);
    assert((",\"nanos\":"@)[0] == ',');
    lemma_u64_round_trip(e.secs, t2);
    lemma_expect_prefix(",\"nanos\":"@, t3);
    assert(("}"@)[0] == '}');
    lemma_u32_from_u64(e.nanos, t4);
    lemma_expect_prefix("}"@, tail);
}

/// Parsing a `u32`'s digits succeeds as a bounded number.
pub proof fn lemma_u32_from_u64(n: u32, tail: Seq<char>)
    requires
        tail.len() == 0 || !is_digit(tail[0]),
    ensures
        spec_parse_u32(dec_digits(n as nat) + tail) == Some((n, tail)),
{
    lemma_u64_round_trip(n as u64, tail);
}

pub open spec fn spec_enc_opt_elapsed(o: Option<ElapsedTime>) -> Seq<char> {
    match o {
        None => "null"@,
        Some(e) => spec_enc_elapsed(e),
    }
}

pub open spec fn spec_parse_opt_elapsed(s: Seq<char>) -> Option<
    (Option<ElapsedTime>, Seq<char>),
> {
    if 0 < s.len() && s[0] == 'n' {
        match spec_expect(s, "null"@) {
            Some(rest) => Some((None, rest)),
            None => None,
        }
    } else {
        match spec_parse_elapsed(s) {
            Some((e, rest)) => Some((Some(e), rest)),
            None => None,
        }
    }
}

pub proof fn lemma_opt_elapsed_round_trip(o: Option<ElapsedTime>, tail: Seq<char>)
    ensures
        spec_parse_opt_elapsed(spec_enc_opt_elapsed(o) + tail) == Some((o, tail)),
{
    reveal_strlit("null");
    match o {
        None => {
            let s = "null"@ + tail;
            assert(s[0] == 'n');
            lemma_expect_prefix("null"@, tail);
        },
        Some(e) => {
            reveal_strlit("{\"secs\":");
            let s = spec_enc_elapsed(e) + tail;
            assert(s[0] == ("{\"secs\":"@)[0]);
            assert(s[0] == '{');
            lemma_elapsed_round_trip(e, tail);
        },
    }
}


// ---------------------------------------------------------------------
// Header maps
// ---------------------------------------------------------------------

pub open spec fn spec_enc_header(h: (Seq<char>, Seq<char>)) -> Seq<char> {
    spec_enc_str(h.0) + ":"@ + spec_enc_str(h.1)
}

pub open spec fn spec_enc_headers_items(hs: Seq<(Seq<char>, Seq<char>)>) -> Seq<char>
    decreases hs.len(),
{
    if hs.len() == 0 {
        Seq::empty()
    } else if hs.len() == 1 {
        spec_enc_header(hs[0])
    } else {
        spec_enc_header(hs[0]) + ","@ + spec_enc_headers_items(hs.drop_first())
    }
}

/// A JSON object holding the headers in order.
pub open spec fn spec_enc_headers(hs: Seq<(Seq<char>, Seq<char>)>) -> Seq<char> {
    "{"@ + spec_enc_headers_items(hs) + "}"@
}

/// One or more `"key":"value"` entries, ending at a closing brace that
/// is consumed.
pub open spec fn spec_parse_headers_items(s: Seq<char>) -> Option<
    (Seq<(Seq<char>, Seq<char>)>, Seq<char>),
>
    decreases s.len(),
    via spec_parse_headers_items_dec
{
    match spec_parse_string(s) {
        Some((k, s1)) => match spec_expect(s1, ":"@) {
            Some(s2) => match spec_parse_string(s2) {
                Some((v, s3)) => if 0 < s3.len() && s3[0] == ',' {
                    match spec_parse_headers_items(s3.skip(1)) {
                        Some((t, s4)) => Some((seq![(k, v)] + t, s4)),
                        None => None,
                    }
                } else if 0 < s3.len() && s3[0] == '}' {
                    Some((seq![(k, v)], s3.skip(1)))
                } else {
                    None
                },
                None => None,
            },
            None => None,
        },
        None => None,
    }
}

#[via_fn]
proof fn spec_parse_headers_items_dec(s: Seq<char>) {
    lemma_string_shortens(s);
    match spec_parse_string(s) {
        Some((k, s1)) => {
            match spec_expect(s1, ":"@) {
                Some(s2) => {
                    lemma_string_shortens(s2);
                },
                None => {},
            }
        },
        None => {},
    }
}

pub open spec fn spec_parse_headers(s: Seq<char>) -> Option<
    (Seq<(Seq<char>, Seq<char>)>, Seq<char>),
> {
    match spec_expect(s, "{"@) {
        Some(s1) => if 0 < s1.len() && s1[0] == '}' {
            Some((Seq::empty(), s1.skip(1)))
        } else {
            spec_parse_headers_items(s1)
        },
        None => None,
    }
}

#[verifier::rlimit(100)]
pub proof fn lemma_headers_items_round_trip(hs: Seq<(Seq<char>, Seq<char>)>, tail: Seq<char>)
    requires
        hs.len() >= 1,
    ensures
        spec_parse_headers_items(spec_enc_headers_items(hs) + "}"@ + tail) == Some((hs, tail)),
    decreases hs.len(),
{
    reveal_strlit(":");
    reveal_strlit(",");
    reveal_strlit("}");
    let k = hs[0].0;
    let v = hs[0].1;
    if hs.len() == 1 {
        let t2 = "}"@ + tail;
        let t1 = ":"@ + spec_enc_str(v) + t2;
        let s = spec_enc_headers_items(hs) + "}"@ + tail;
        assert(s =~= spec_enc_str(k) + t1);
        lemma_string_round_trip(k, t1);
        assert(t1 =~= ":"@ + (spec_enc_str(v) + t2));
        lemma_expect_prefix(":"@, spec_enc_str(v) + t2);
        lemma_string_round_trip(v, t2);
        assert(t2[0] == '}');
        assert(t2.skip(1) =~= tail);
        assert(seq![(k, v)] =~= hs);
    } else {
        let rest_items = spec_enc_headers_items(hs.drop_first());
        let t3 = rest_items + "}"@ + tail;
        let t2 = ","@ + t3;
        let t1 = ":"@ + spec_enc_str(v) + t2;
        let s = spec_enc_headers_items(hs) + "}"@ + tail;
        assert(s =~= spec_enc_str(k) + t1);
        lemma_string_round_trip(k, t1);
        assert(t1 =~= ":"@ + (spec_enc_str(v) + t2));
        lemma_expect_prefix(":"@, spec_enc_str(v) + t2);
        lemma_string_round_trip(v, t2);
        assert(t2[0] == ',');
        assert(t2.skip(1) =~= t3);
        lemma_headers_items_round_trip(hs.drop_first(), tail);
        assert(seq![(k, v)] + hs.drop_first() =~= hs);
    }
}

pub proof fn lemma_headers_round_trip(hs: Seq<(Seq<char>, Seq<char>)>, tail: Seq<char>)
    ensures
        spec_parse_headers(spec_enc_headers(hs) + tail) == Some((hs, tail)),
{
    reveal_strlit("{");
    reveal_strlit("}");
    let s = spec_enc_headers(hs) + tail;
    let s1 = spec_enc_headers_items(hs) + "}"@ + tail;
    assert(s =~= "{"@ + s1);
    lemma_expect_prefix("{"@, s1);
    if hs.len() == 0 {
        assert(s1[0] == '}');
        assert(s1.skip(1) =~= tail);
        assert(spec_parse_headers(s) == Some((Seq::<(Seq<char>, Seq<char>)>::empty(), tail)));
        assert(hs =~= Seq::<(Seq<char>, Seq<char>)>::empty());
    } else {
        assert(s1[0] == '"');
        lemma_headers_items_round_trip(hs, tail);
    }
}

/// A successful header-map parse consumes at least one character.
pub proof fn lemma_headers_shortens(s: Seq<char>)
    ensures
        spec_parse_headers(s) matches Some((t, rest)) ==> rest.len() < s.len(),
{
    reveal_strlit("{");
    match spec_expect(s, "{"@) {
        Some(s1) => {
            if !(0 < s1.len() && s1[0] == '}') {
                lemma_headers_items_shortens(s1);
            }
        },
        None => {},
    }
}

proof fn lemma_headers_items_shortens(s: Seq<char>)
    ensures
        spec_parse_headers_items(s) matches Some((t, rest)) ==> rest.len() < s.len(),
    decreases s.len(),
{
    lemma_string_shortens(s);
    match spec_parse_string(s) {
        Some((k, s1)) => {
            match spec_expect(s1, ":"@) {
                Some(s2) => {
                    lemma_string_shortens(s2);
                    match spec_parse_string(s2) {
                        Some((v, s3)) => {
                            if 0 < s3.len() && s3[0] == ',' {
                                lemma_headers_items_shortens(s3.skip(1));
                            }
                        },
                        None => {},
                    }
                },
                None => {},
            }
        },
        None => {},
    }
}

// ---------------------------------------------------------------------
// Request specifications
// ---------------------------------------------------------------------

#[verifier::opaque]
pub open spec fn spec_enc_request(r: RequestSpecV) -> Seq<char> {
    "{\"version\":"@ + spec_enc_version(r.version) + ",\"method\":"@ + spec_enc_method(r.method)
        + ",\"url\":"@ + spec_enc_str(r.url) + ",\"body\":"@ + spec_enc_opt_str(r.body)
        + ",\"headers\":"@ + spec_enc_headers(r.headers) + ",\"random_querystring\":"@
        + spec_enc_opt_str(r.random_querystring) + ",\"random_header\":"@ + spec_enc_opt_str(
        r.random_header,
    ) + "}"@
}

#[verifier::opaque]
pub open spec fn spec_parse_request(s: Seq<char>) -> Option<(RequestSpecV, Seq<char>)> {
    match spec_expect(s, "{\"version\":"@) {
        Some(s1) => match spec_parse_version(s1) {
            Some((version, s2)) => match spec_expect(s2, ",\"method\":"@) {
                Some(s3) => match spec_parse_method(s3) {
                    Some((method, s4)) => match spec_expect(s4, ",\"url\":"@) {
                        Some(s5) => match spec_parse_string(s5) {
                            Some((url, s6)) => match spec_expect(s6, ",\"body\":"@) {
                                Some(s7) => match spec_parse_opt_str(s7) {
                                    Some((body, s8)) => match spec_expect(s8, ",\"headers\":"@) {
                                        Some(s9) => match spec_parse_headers(s9) {
                                            Some((headers, s10)) => match spec_expect(
                                                s10,
                                                ",\"random_querystring\":"@,
                                            ) {
                                                Some(s11) => match spec_parse_opt_str(s11) {
                                                    Some((rq, s12)) => match spec_expect(
                                                        s12,
                                                        ",\"random_header\":"@,
                                                    ) {
                                                        Some(s13) => match spec_parse_opt_str(
                                                            s13,
                                                        ) {
                                                            Some((rh, s14)) => match spec_expect(
                                                                s14,
                                                                "}"@,
                                                            ) {
                                                                Some(s15) => Some(
                                                                    (
                                                                        RequestSpecV {
                                                                            version,
                                                                            method,
                                                                            url,
                                                                            body,
                                                                            headers,
                                                                            random_querystring: rq,
                                                                            random_header: rh,
                                                                        },
                                                                        s15,
                                                                    ),
                                                                ),
                                                                None => None,
                                                            },
                                                            None => None,
                                                        },
                                                        None => None,
                                                    },
                                                    None => None,
                                                },
                                                None => None,
                                            },
                                            None => None,
                                        },
                                        None => None,
                                    },
                                    None => None,
                                },
                                None => None,
                            },
                            None => None,
                        },
                        None => None,
                    },
                    None => None,
                },
                None => None,
            },
            None => None,
        },
        None => None,
    }
}

/// Reassociates an encoded request followed by `tail` into the
/// right-nested form that the parsing lemma walks.
proof fn lemma_request_assoc(r: RequestSpecV, tail: Seq<char>)
    ensures
        spec_enc_request(r) + tail == "{\"version\":"@ + (spec_enc_version(r.version) + (",\"method\":"@ + (spec_enc_method(r.method) + (",\"url\":"@ + (spec_enc_str(r.url) + (",\"body\":"@ + (spec_enc_opt_str(r.body) + (",\"headers\":"@ + (spec_enc_headers(r.headers) + (",\"random_querystring\":"@ + (spec_enc_opt_str(r.random_querystring) + (",\"random_header\":"@ + (spec_enc_opt_str(r.random_header) + ("}"@ + (tail))))))))))))))),
{
    reveal(spec_enc_request);
    let u0 = tail;
    let u1 = "}"@ + u0;
    lemma_shift("{\"version\":"@ + spec_enc_version(r.version) + ",\"method\":"@ + spec_enc_method(r.method) + ",\"url\":"@ + spec_enc_str(r.url) + ",\"body\":"@ + spec_enc_opt_str(r.body) + ",\"headers\":"@ + spec_enc_headers(r.headers) + ",\"random_querystring\":"@ + spec_enc_opt_str(r.random_querystring) + ",\"random_header\":"@ + spec_enc_opt_str(r.random_header), "}"@, u0);
    let u2 = spec_enc_opt_str(r.random_header) + u1;
    lemma_shift("{\"version\":"@ + spec_enc_version(r.version) + ",\"method\":"@ + spec_enc_method(r.method) + ",\"url\":"@ + spec_enc_str(r.url) + ",\"body\":"@ + spec_enc_opt_str(r.body) + ",\"headers\":"@ + spec_enc_headers(r.headers) + ",\"random_querystring\":"@ + spec_enc_opt_str(r.random_querystring) + ",\"random_header\":"@, spec_enc_opt_str(r.random_header), u1);
    let u3 = ",\"random_header\":"@ + u2;
    lemma_shift("{\"version\":"@ + spec_enc_version(r.version) + ",\"method\":"@ + spec_enc_method(r.method) + ",\"url\":"@ + spec_enc_str(r.url) + ",\"body\":"@ + spec_enc_opt_str(r.body) + ",\"headers\":"@ + spec_enc_headers(r.headers) + ",\"random_querystring\":"@ + spec_enc_opt_str(r.random_querystring), ",\"random_header\":"@, u2);
    let u4 = spec_enc_opt_str(r.random_querystring) + u3;
    lemma_shift("{\"version\":"@ + spec_enc_version(r.version) + ",\"method\":"@ + spec_enc_method(r.method) + ",\"url\":"@ + spec_enc_str(r.url) + ",\"body\":"@ + spec_enc_opt_str(r.body) + ",\"headers\":"@ + spec_enc_headers(r.headers) + ",\"random_querystring\":"@, spec_enc_opt_str(r.random_querystring), u3);
    let u5 = ",\"random_querystring\":"@ + u4;
    lemma_shift("{\"version\":"@ + spec_enc_version(r.version) + ",\"method\":"@ + spec_enc_method(r.method) + ",\"url\":"@ + spec_enc_str(r.url) + ",\"body\":"@ + spec_enc_opt_str(r.body) + ",\"headers\":"@ + spec_enc_headers(r.headers), ",\"random_querystring\":"@, u4);
    let u6 = spec_enc_headers(r.headers) + u5;
    lemma_shift("{\"version\":"@ + spec_enc_version(r.version) + ",\"method\":"@ + spec_enc_method(r.method) + ",\"url\":"@ + spec_enc_str(r.url) + ",\"body\":"@ + spec_enc_opt_str(r.body) + ",\"headers\":"@, spec_enc_headers(r.headers), u5);
    let u7 = ",\"headers\":"@ + u6;
    lemma_shift("{\"version\":"@ + spec_enc_version(r.version) + ",\"method\":"@ + spec_enc_method(r.method) + ",\"url\":"@ + spec_enc_str(r.url) + ",\"body\":"@ + spec_enc_opt_str(r.body), ",\"headers\":"@, u6);
    let u8 = spec_enc_opt_str(r.body) + u7;
    lemma_shift("{\"version\":"@ + spec_enc_version(r.version) + ",\"method\":"@ + spec_enc_method(r.method) + ",\"url\":"@ + spec_enc_str(r.url) + ",\"body\":"@, spec_enc_opt_str(r.body), u7);
    let u9 = ",\"body\":"@ + u8;
    lemma_shift("{\"version\":"@ + spec_enc_version(r.version) + ",\"method\":"@ + spec_enc_method(r.method) + ",\"url\":"@ + spec_enc_str(r.url), ",\"body\":"@, u8);
    let u10 = spec_enc_str(r.url) + u9;
    lemma_shift("{\"version\":"@ + spec_enc_version(r.version) + ",\"method\":"@ + spec_enc_method(r.method) + ",\"url\":"@, spec_enc_str(r.url), u9);
    let u11 = ",\"url\":"@ + u10;
    lemma_shift("{\"version\":"@ + spec_enc_version(r.version) + ",\"method\":"@ + spec_enc_method(r.method), ",\"url\":"@, u10);
    let u12 = spec_enc_method(r.method) + u11;
    lemma_shift("{\"version\":"@ + spec_enc_version(r.version) + ",\"method\":"@, spec_enc_method(r.method), u11);
    let u13 = ",\"method\":"@ + u12;
    lemma_shift("{\"version\":"@ + spec_enc_version(r.version), ",\"method\":"@, u12);
    let u14 = spec_enc_version(r.version) + u13;
    lemma_shift("{\"version\":"@, spec_enc_version(r.version), u13);
}

/// Parsing the right-nested encoded form recovers the request.
#[verifier::rlimit(50)]
proof fn lemma_request_parse_nested(r: RequestSpecV, tail: Seq<char>)
    ensures
        spec_parse_request("{\"version\":"@ + (spec_enc_version(r.version) + (",\"method\":"@ + (spec_enc_method(r.method) + (",\"url\":"@ + (spec_enc_str(r.url) + (",\"body\":"@ + (spec_enc_opt_str(r.body) + (",\"headers\":"@ + (spec_enc_headers(r.headers) + (",\"random_querystring\":"@ + (spec_enc_opt_str(r.random_querystring) + (",\"random_header\":"@ + (spec_enc_opt_str(r.random_header) + ("}"@ + (tail)))))))))))))))) == Some((r, tail)),
{
    reveal(spec_parse_request);
    let u0 = tail;
    let u1 = "}"@ + u0;
    let u2 = spec_enc_opt_str(r.random_header) + u1;
    let u3 = ",\"random_header\":"@ + u2;
    let u4 = spec_enc_opt_str(r.random_querystring) + u3;
    let u5 = ",\"random_querystring\":"@ + u4;
    let u6 = spec_enc_headers(r.headers) + u5;
    let u7 = ",\"headers\":"@ + u6;
    let u8 = spec_enc_opt_str(r.body) + u7;
    let u9 = ",\"body\":"@ + u8;
    let u10 = spec_enc_str(r.url) + u9;
    let u11 = ",\"url\":"@ + u10;
    let u12 = spec_enc_method(r.method) + u11;
    let u13 = ",\"method\":"@ + u12;
    let u14 = spec_enc_version(r.version) + u13;
    lemma_expect_prefix("{\"version\":"@, u14);
    lemma_version_round_trip(r.version, u13);
    lemma_expect_prefix(",\"method\":"@, u12);
    lemma_method_round_trip(r.method, u11);
    lemma_expect_prefix(",\"url\":"@, u10);
    lemma_string_round_trip(r.url, u9);
    lemma_expect_prefix(",\"body\":"@, u8);
    lemma_opt_str_round_trip(r.body, u7);
    lemma_expect_prefix(",\"headers\":"@, u6);
    lemma_headers_round_trip(r.headers, u5);
    lemma_expect_prefix(",\"random_querystring\":"@, u4);
    lemma_opt_str_round_trip(r.random_querystring, u3);
    lemma_expect_prefix(",\"random_header\":"@, u2);
    lemma_opt_str_round_trip(r.random_header, u1);
    lemma_expect_prefix("}"@, tail);
}

/// An encoded request begins with an opening brace.
proof fn lemma_request_enc_head(r: RequestSpecV)
    ensures
        spec_enc_request(r).len() > 0,
        spec_enc_request(r)[0] == '{',
{
    reveal(spec_enc_request);
    reveal_strlit("{\"version\":");
    assert(spec_enc_request(r)[0] == ("{\"version\":"@)[0]);
}

pub proof fn lemma_request_round_trip(r: RequestSpecV, tail: Seq<char>)
    ensures
        spec_parse_request(spec_enc_request(r) + tail) == Some((r, tail)),
{
    lemma_request_assoc(r, tail);
    lemma_request_parse_nested(r, tail);
}

/// A successful request parse consumes at least one character.
pub proof fn lemma_request_shortens(s: Seq<char>)
    ensures
        spec_parse_request(s) matches Some((r, rest)) ==> rest.len() < s.len(),
{
    reveal(spec_parse_request);
    reveal_strlit("{\"version\":");
    match spec_parse_request(s) {
        Some((r, rest)) => {
            let s1 = spec_expect(s, "{\"version\":"@)->Some_0;
            assert(s1.len() < s.len());
            lemma_string_shortens(s1);
            let s2 = spec_parse_version(s1)->Some_0.1;
            assert(s2.len() < s1.len());
            lemma_chain_request_tail(s2, rest);
        },
        None => {},
    }
}

/// From the position after the version field, parsing only shrinks the
/// input.
proof fn lemma_chain_request_tail(s2: Seq<char>, rest: Seq<char>)
    requires
        ({
            match spec_expect(s2, ",\"method\":"@) {
                Some(s3) => match spec_parse_method(s3) {
                    Some((method, s4)) => match spec_expect(s4, ",\"url\":"@) {
                        Some(s5) => match spec_parse_string(s5) {
                            Some((url, s6)) => match spec_expect(s6, ",\"body\":"@) {
                                Some(s7) => match spec_parse_opt_str(s7) {
                                    Some((body, s8)) => match spec_expect(s8, ",\"headers\":"@) {
                                        Some(s9) => match spec_parse_headers(s9) {
                                            Some((headers, s10)) => match spec_expect(
                                                s10,
                                                ",\"random_querystring\":"@,
                                            ) {
                                                Some(s11) => match spec_parse_opt_str(s11) {
                                                    Some((rq, s12)) => match spec_expect(
                                                        s12,
                                                        ",\"random_header\":"@,
                                                    ) {
                                                        Some(s13) => match spec_parse_opt_str(
                                                            s13,
                                                        ) {
                                                            Some((rh, s14)) => match spec_expect(
                                                                s14,
                                                                "}"@,
                                                            ) {
                                                                Some(s15) => s15 == rest,
                                                                None => false,
                                                            },
                                                            None => false,
                                                        },
                                                        None => false,
                                                    },
                                                    None => false,
                                                },
                                                None => false,
                                            },
                                            None => false,
                                        },
                                        None => false,
                                    },
                                    None => false,
                                },
                                None => false,
                            },
                            None => false,
                        },
                        None => false,
                    },
                    None => false,
                },
                None => false,
            }
        }),
    ensures
        rest.len() <= s2.len(),
{
    let s3 = spec_expect(s2, ",\"method\":"@)->Some_0;
    lemma_string_shortens(s3);
    let s4 = spec_parse_method(s3)->Some_0.1;
    let s5 = spec_expect(s4, ",\"url\":"@)->Some_0;
    lemma_string_shortens(s5);
    let s6 = spec_parse_string(s5)->Some_0.1;
    let s7 = spec_expect(s6, ",\"body\":"@)->Some_0;
    lemma_opt_str_shortens(s7);
    let s8 = spec_parse_opt_str(s7)->Some_0.1;
    let s9 = spec_expect(s8, ",\"headers\":"@)->Some_0;
    lemma_headers_shortens(s9);
    let s10 = spec_parse_headers(s9)->Some_0.1;
    let s11 = spec_expect(s10, ",\"random_querystring\":"@)->Some_0;
    lemma_opt_str_shortens(s11);
    let s12 = spec_parse_opt_str(s11)->Some_0.1;
    let s13 = spec_expect(s12, ",\"random_header\":"@)->Some_0;
    lemma_opt_str_shortens(s13);
    let s14 = spec_parse_opt_str(s13)->Some_0.1;
}

/// A successful optional-string parse consumes at least one character.
pub proof fn lemma_opt_str_shortens(s: Seq<char>)
    ensures
        spec_parse_opt_str(s) matches Some((o, rest)) ==> rest.len() < s.len(),
{
    reveal_strlit("null");
    lemma_string_shortens(s);
}

// ---------------------------------------------------------------------
// Request lists
// ---------------------------------------------------------------------

pub open spec fn spec_enc_req_items(rs: Seq<RequestSpecV>) -> Seq<char>
    decreases rs.len(),
{
    if rs.len() == 0 {
        Seq::empty()
    } else if rs.len() == 1 {
        spec_enc_request(rs[0])
    } else {
        spec_enc_request(rs[0]) + ","@ + spec_enc_req_items(rs.drop_first())
    }
}

/// A JSON array holding the requests in order.
pub open spec fn spec_enc_req_list(rs: Seq<RequestSpecV>) -> Seq<char> {
    "["@ + spec_enc_req_items(rs) + "]"@
}

/// One or more requests, ending at a closing bracket that is consumed.
pub open spec fn spec_parse_req_items(s: Seq<char>) -> Option<(Seq<RequestSpecV>, Seq<char>)>
    decreases s.len(),
    via spec_parse_req_items_dec
{
    match spec_parse_request(s) {
        Some((r, s1)) => if 0 < s1.len() && s1[0] == ',' {
            match spec_parse_req_items(s1.skip(1)) {
                Some((t, s2)) => Some((seq![r] + t, s2)),
                None => None,
            }
        } else if 0 < s1.len() && s1[0] == ']' {
            Some((seq![r], s1.skip(1)))
        } else {
            None
        },
        None => None,
    }
}

#[via_fn]
proof fn spec_parse_req_items_dec(s: Seq<char>) {
    lemma_request_shortens(s);
}

pub open spec fn spec_parse_req_list(s: Seq<char>) -> Option<(Seq<RequestSpecV>, Seq<char>)> {
    match spec_expect(s, "["@) {
        Some(s1) => if 0 < s1.len() && s1[0] == ']' {
            Some((Seq::empty(), s1.skip(1)))
        } else {
            spec_parse_req_items(s1)
        },
        None => None,
    }
}

#[verifier::rlimit(100)]
pub proof fn lemma_req_items_round_trip(rs: Seq<RequestSpecV>, tail: Seq<char>)
    requires
        rs.len() >= 1,
    ensures
        spec_parse_req_items(spec_enc_req_items(rs) + "]"@ + tail) == Some((rs, tail)),
    decreases rs.len(),
{
    reveal_strlit(",");
    reveal_strlit("]");
    if rs.len() == 1 {
        let u1 = "]"@ + tail;
        lemma_shift(spec_enc_req_items(rs), "]"@, tail);
        lemma_request_round_trip(rs[0], u1);
        assert(u1[0] == ']');
        assert(u1.skip(1) =~= tail);
        assert(seq![rs[0]] =~= rs);
    } else {
        let a = spec_enc_request(rs[0]);
        let b = ","@;
        let c = spec_enc_req_items(rs.drop_first());
        let u1 = "]"@ + tail;
        lemma_shift((a + b) + c, "]"@, tail);
        let u2 = c + u1;
        lemma_shift(a + b, c, u1);
        let u3 = b + u2;
        lemma_shift(a, b, u2);
        lemma_request_round_trip(rs[0], u3);
        assert(u3[0] == ',');
        assert(u3.skip(1) =~= u2);
        lemma_shift(c, "]"@, tail);
        lemma_req_items_round_trip(rs.drop_first(), tail);
        assert(seq![rs[0]] + rs.drop_first() =~= rs);
    }
}

pub proof fn lemma_req_list_round_trip(rs: Seq<RequestSpecV>, tail: Seq<char>)
    ensures
        spec_parse_req_list(spec_enc_req_list(rs) + tail) == Some((rs, tail)),
{
    reveal_strlit("[");
    reveal_strlit("]");
    reveal_strlit("{\"version\":");
    let s = spec_enc_req_list(rs) + tail;
    let s1 = spec_enc_req_items(rs) + "]"@ + tail;
    assert(s =~= "["@ + s1);
    lemma_expect_prefix("["@, s1);
    if rs.len() == 0 {
        assert(s1[0] == ']');
        assert(s1.skip(1) =~= tail);
        assert(rs =~= Seq::<RequestSpecV>::empty());
    } else {
        lemma_request_enc_head(rs[0]);
        assert(s1[0] == '{');
        lemma_req_items_round_trip(rs, tail);
    }
}


// ---------------------------------------------------------------------
// Field helpers
// ---------------------------------------------------------------------

/// Concatenation is associative.
pub proof fn lemma_shift(a: Seq<char>, b: Seq<char>, c: Seq<char>)
    ensures
        (a + b) + c == a + (b + c),
{
    assert((a + b) + c =~= a + (b + c));
}

pub open spec fn spec_parse_field_u64(s: Seq<char>, lit: Seq<char>) -> Option<(u64, Seq<char>)> {
    match spec_expect(s, lit) {
        Some(s1) => spec_parse_u64(s1),
        None => None,
    }
}

pub open spec fn spec_parse_field_u32(s: Seq<char>, lit: Seq<char>) -> Option<(u32, Seq<char>)> {
    match spec_expect(s, lit) {
        Some(s1) => spec_parse_u32(s1),
        None => None,
    }
}

/// Skip a fractional part (a dot and digits), if one stands at the head.
pub open spec fn spec_skip_frac(s: Seq<char>) -> Seq<char> {
    if s.len() >= 2 && s[0] == '.' && is_digit(s[1]) {
        s.skip(1).skip(digits_end(s.skip(1), 0))
    } else {
        s
    }
}

/// A millisecond quantity: an integer, tolerating a fractional tail
/// from peers that report fractional milliseconds (truncated).
pub open spec fn spec_parse_field_ms(s: Seq<char>, lit: Seq<char>) -> Option<(u64, Seq<char>)> {
    match spec_expect(s, lit) {
        Some(s1) => match spec_parse_u64(s1) {
            Some((v, rest)) => Some((v, spec_skip_frac(rest))),
            None => None,
        },
        None => None,
    }
}

pub proof fn lemma_field_u32_round_trip(l: Seq<char>, n: u32, t: Seq<char>)
    requires
        t.len() == 0 || !is_digit(t[0]),
    ensures
        spec_parse_field_u32(l + dec_digits(n as nat) + t, l) == Some((n, t)),
{
    assert(l + dec_digits(n as nat) + t =~= l + (dec_digits(n as nat) + t));
    lemma_expect_prefix(l, dec_digits(n as nat) + t);
    lemma_u64_round_trip(n as u64, t);
}

// ---------------------------------------------------------------------
// Commands
// ---------------------------------------------------------------------

pub open spec fn spec_enc_command(c: CommandV) -> Seq<char> {
    match c {
        CommandV::Stop => spec_enc_str("Stop"@),
        CommandV::Reset => spec_enc_str("Reset"@),
        CommandV::Start { requests, strategy, max_concurrency } => "{\"Start\":{\"requests\":"@
            + spec_enc_req_list(requests) + ",\"strategy\":"@ + spec_enc_strategy(strategy)
            + ",\"max_concurrency\":"@ + dec_digits(max_concurrency as nat) + "}}"@,
    }
}

pub open spec fn spec_parse_command(s: Seq<char>) -> Option<(CommandV, Seq<char>)> {
    if 0 < s.len() && s[0] == '{' {
        match spec_expect(s, "{\"Start\":{\"requests\":"@) {
            Some(s1) => match spec_parse_req_list(s1) {
                Some((requests, s2)) => match spec_expect(s2, ",\"strategy\":"@) {
                    Some(s3) => match spec_parse_strategy(s3) {
                        Some((strategy, s4)) => match spec_parse_field_u32(
                            s4,
                            ",\"max_concurrency\":"@,
                        ) {
                            Some((max_concurrency, s5)) => match spec_expect(s5, "}}"@) {
                                Some(s6) => Some(
                                    (CommandV::Start { requests, strategy, max_concurrency }, s6),
                                ),
                                None => None,
                            },
                            None => None,
                        },
                        None => None,
                    },
                    None => None,
                },
                None => None,
            },
            None => None,
        }
    } else {
        match spec_parse_string(s) {
            Some((name, rest)) => if name == "Stop"@ {
                Some((CommandV::Stop, rest))
            } else if name == "Reset"@ {
                Some((CommandV::Reset, rest))
            } else {
                None
            },
            None => None,
        }
    }
}

/// Round trip: a command survives encoding and parsing unchanged.
pub proof fn lemma_command_round_trip(c: CommandV, tail: Seq<char>)
    ensures
        spec_parse_command(spec_enc_command(c) + tail) == Some((c, tail)),
{
    reveal_strlit("Stop");
    reveal_strlit("Reset");
    reveal_strlit("{\"Start\":{\"requests\":");
    reveal_strlit(",\"strategy\":");
    reveal_strlit(",\"max_concurrency\":");
    reveal_strlit("}}");
    match c {
        CommandV::Stop => {
            let s = spec_enc_str("Stop"@) + tail;
            assert(s[0] == '"');
            lemma_string_round_trip("Stop"@, tail);
        },
        CommandV::Reset => {
            let s = spec_enc_str("Reset"@) + tail;
            assert(s[0] == '"');
            lemma_string_round_trip("Reset"@, tail);
        },
        CommandV::Start { requests, strategy, max_concurrency } => {
            let lit1 = "{\"Start\":{\"requests\":"@;
            let lit2 = ",\"strategy\":"@;
            let lit3 = ",\"max_concurrency\":"@;
            let lit4 = "}}"@;
            let u0 = tail;
            let u1 = lit4 + u0;
            lemma_shift(
                lit1 + spec_enc_req_list(requests) + lit2 + spec_enc_strategy(strategy) + lit3
                    + dec_digits(max_concurrency as nat),
                lit4,
                u0,
            );
            let u2 = dec_digits(max_concurrency as nat) + u1;
            lemma_shift(
                lit1 + spec_enc_req_list(requests) + lit2 + spec_enc_strategy(strategy) + lit3,
                dec_digits(max_concurrency as nat),
                u1,
            );
            let u3 = lit3 + u2;
            lemma_shift(
                lit1 + spec_enc_req_list(requests) + lit2 + spec_enc_strategy(strategy),
                lit3,
                u2,
            );
            let u4 = spec_enc_strategy(strategy) + u3;
            lemma_shift(lit1 + spec_enc_req_list(requests) + lit2, spec_enc_strategy(strategy), u3);
            let u5 = lit2 + u4;
            lemma_shift(lit1 + spec_enc_req_list(requests), lit2, u4);
            let u6 = spec_enc_req_list(requests) + u5;
            lemma_shift(lit1, spec_enc_req_list(requests), u5);
            let s = spec_enc_command(c) + tail;
            assert(s == lit1 + u6);
            assert(s[0] == '{');
            lemma_expect_prefix(lit1, u6);
            lemma_req_list_round_trip(requests, u5);
            lemma_expect_prefix(lit2, u4);
            lemma_strategy_round_trip(strategy, u3);
            lemma_field_u32_round_trip(lit3, max_concurrency, u1);
            assert(lit3 + dec_digits(max_concurrency as nat) + u1 == lit3 + (dec_digits(
                max_concurrency as nat,
            ) + u1)) by {
                lemma_shift(lit3, dec_digits(max_concurrency as nat), u1);
            }
            lemma_expect_prefix(lit4, tail);
        },
    }
}

// ---------------------------------------------------------------------
// Status snapshots
// ---------------------------------------------------------------------

pub open spec fn spec_enc_status(v: StatusV) -> Seq<char> {
    "{\"hostname\":"@ + spec_enc_opt_str(v.hostname)
        + ",\"socket\":"@ + spec_enc_opt_str(v.socket)
        + ",\"state\":"@ + spec_enc_state(v.state)
        + ",\"elapsed\":"@ + spec_enc_opt_elapsed(v.elapsed)
        + ",\"tasks\":"@ + dec_digits(v.tasks as nat)
        + ",\"task_queue\":"@ + dec_digits(v.task_queue as nat)
        + ",\"tasks_max\":"@ + dec_digits(v.tasks_max as nat)
        + ",\"min\":"@ + dec_digits(v.min as nat)
        + ",\"max\":"@ + dec_digits(v.max as nat)
        + ",\"mean\":"@ + dec_digits(v.mean as nat)
        + ",\"stdev\":"@ + dec_digits(v.stdev as nat)
        + ",\"median\":"@ + dec_digits(v.median as nat)
        + ",\"p90\":"@ + dec_digits(v.p90 as nat)
        + ",\"count\":"@ + dec_digits(v.count as nat)
        + ",\"count_1xx\":"@ + dec_digits(v.count_1xx as nat)
        + ",\"count_2xx\":"@ + dec_digits(v.count_2xx as nat)
        + ",\"count_3xx\":"@ + dec_digits(v.count_3xx as nat)
        + ",\"count_4xx\":"@ + dec_digits(v.count_4xx as nat)
        + ",\"count_5xx\":"@ + dec_digits(v.count_5xx as nat)
        + ",\"count_fail\":"@ + dec_digits(v.count_fail as nat)
        + "}"@
}

pub open spec fn spec_parse_status(s: Seq<char>) -> Option<(StatusV, Seq<char>)> {
    match spec_expect(s, "{\"hostname\":"@) {
    Some(s1) => match spec_parse_opt_str(s1) {
        Some((hostname, s2)) => match spec_expect(s2, ",\"socket\":"@) {
            Some(s3) => match spec_parse_opt_str(s3) {
                Some((socket, s4)) => match spec_expect(s4, ",\"state\":"@) {
                    Some(s5) => match spec_parse_state(s5) {
                        Some((state, s6)) => match spec_expect(s6, ",\"elapsed\":"@) {
                            Some(s7) => match spec_parse_opt_elapsed(s7) {
                                Some((elapsed, s8)) =>
match spec_parse_field_u32(s8, ",\"tasks\":"@) {
Some((tasks, s9)) =>
match spec_parse_field_u32(s9, ",\"task_queue\":"@) {
Some((task_queue, s10)) =>
match spec_parse_field_u32(s10, ",\"tasks_max\":"@) {
Some((tasks_max, s11)) =>
match spec_parse_field_u64(s11, ",\"min\":"@) {
Some((min, s12)) =>
match spec_parse_field_u64(s12, ",\"max\":"@) {
Some((max, s13)) =>
match spec_parse_field_ms(s13, ",\"mean\":"@) {
Some((mean, s14)) =>
match spec_parse_field_ms(s14, ",\"stdev\":"@) {
Some((stdev, s15)) =>
match spec_parse_field_u64(s15, ",\"median\":"@) {
Some((median, s16)) =>
match spec_parse_field_u64(s16, ",\"p90\":"@) {
Some((p90, s17)) =>
match spec_parse_field_u32(s17, ",\"count\":"@) {
Some((count, s18)) =>
match spec_parse_field_u32(s18, ",\"count_1xx\":"@) {
Some((count_1xx, s19)) =>
match spec_parse_field_u32(s19, ",\"count_2xx\":"@) {
Some((count_2xx, s20)) =>
match spec_parse_field_u32(s20, ",\"count_3xx\":"@) {
Some((count_3xx, s21)) =>
match spec_parse_field_u32(s21, ",\"count_4xx\":"@) {
Some((count_4xx, s22)) =>
match spec_parse_field_u32(s22, ",\"count_5xx\":"@) {
Some((count_5xx, s23)) =>
match spec_parse_field_u32(s23, ",\"count_fail\":"@) {
Some((count_fail, s24)) =>
match spec_expect(s24, "}"@) {
Some(s25) => Some((StatusV { hostname, socket, state, elapsed, tasks, task_queue, tasks_max, min, max, mean, stdev, median, p90, count, count_1xx, count_2xx, count_3xx, count_4xx, count_5xx, count_fail }, s25)),
None => None,
}
None => None,
}
None => None,
}
None => None,
}
None => None,
}
None => None,
}
None => None,
}
None => None,
}
None => None,
}
None => None,
}
None => None,
}
None => None,
}
None => None,
}
None => None,
}
None => None,
}
None => None,
}
None => None,
}
                                None => None,
                            },
                            None => None,
                        },
                        None => None,
                    },
                    None => None,
                },
                None => None,
            },
            None => None,
        },
        None => None,
    },
    None => None,
}
}

/// Round trip: a status snapshot survives encoding and parsing
/// unchanged.
#[verifier::rlimit(100)]
pub proof fn lemma_status_round_trip(v: StatusV, tail: Seq<char>)
    ensures
        spec_parse_status(spec_enc_status(v) + tail) == Some((v, tail)),
{
    reveal_strlit("{\"hostname\":");
    reveal_strlit(",\"socket\":");
    reveal_strlit(",\"state\":");
    reveal_strlit(",\"elapsed\":");
    reveal_strlit(",\"tasks\":");
    reveal_strlit(",\"task_queue\":");
    reveal_strlit(",\"tasks_max\":");
    reveal_strlit(",\"min\":");
    reveal_strlit(",\"max\":");
    reveal_strlit(",\"mean\":");
    reveal_strlit(",\"stdev\":");
    reveal_strlit(",\"median\":");
    reveal_strlit(",\"p90\":");
    reveal_strlit(",\"count\":");
    reveal_strlit(",\"count_1xx\":");
    reveal_strlit(",\"count_2xx\":");
    reveal_strlit(",\"count_3xx\":");
    reveal_strlit(",\"count_4xx\":");
    reveal_strlit(",\"count_5xx\":");
    reveal_strlit(",\"count_fail\":");
    reveal_strlit("}");
    let u0 = tail;
    let u1 = "}"@ + u0;
    lemma_shift("{\"hostname\":"@ + spec_enc_opt_str(v.hostname) + ",\"socket\":"@ + spec_enc_opt_str(v.socket) + ",\"state\":"@ + spec_enc_state(v.state) + ",\"elapsed\":"@ + spec_enc_opt_elapsed(v.elapsed) + ",\"tasks\":"@ + dec_digits(v.tasks as nat) + ",\"task_queue\":"@ + dec_digits(v.task_queue as nat) + ",\"tasks_max\":"@ + dec_digits(v.tasks_max as nat) + ",\"min\":"@ + dec_digits(v.min as nat) + ",\"max\":"@ + dec_digits(v.max as nat) + ",\"mean\":"@ + dec_digits(v.mean as nat) + ",\"stdev\":"@ + dec_digits(v.stdev as nat) + ",\"median\":"@ + dec_digits(v.median as nat) + ",\"p90\":"@ + dec_digits(v.p90 as nat) + ",\"count\":"@ + dec_digits(v.count as nat) + ",\"count_1xx\":"@ + dec_digits(v.count_1xx as nat) + ",\"count_2xx\":"@ + dec_digits(v.count_2xx as nat) + ",\"count_3xx\":"@ + dec_digits(v.count_3xx as nat) + ",\"count_4xx\":"@ + dec_digits(v.count_4xx as nat) + ",\"count_5xx\":"@ + dec_digits(v.count_5xx as nat) + ",\"count_fail\":"@ + dec_digits(v.count_fail as nat), "}"@, u0);
    let u2 = dec_digits(v.count_fail as nat) + u1;
    lemma_shift("{\"hostname\":"@ + spec_enc_opt_str(v.hostname) + ",\"socket\":"@ + spec_enc_opt_str(v.socket) + ",\"state\":"@ + spec_enc_state(v.state) + ",\"elapsed\":"@ + spec_enc_opt_elapsed(v.elapsed) + ",\"tasks\":"@ + dec_digits(v.tasks as nat) + ",\"task_queue\":"@ + dec_digits(v.task_queue as nat) + ",\"tasks_max\":"@ + dec_digits(v.tasks_max as nat) + ",\"min\":"@ + dec_digits(v.min as nat) + ",\"max\":"@ + dec_digits(v.max as nat) + ",\"mean\":"@ + dec_digits(v.mean as nat) + ",\"stdev\":"@ + dec_digits(v.stdev as nat) + ",\"median\":"@ + dec_digits(v.median as nat) + ",\"p90\":"@ + dec_digits(v.p90 as nat) + ",\"count\":"@ + dec_digits(v.count as nat) + ",\"count_1xx\":"@ + dec_digits(v.count_1xx as nat) + ",\"count_2xx\":"@ + dec_digits(v.count_2xx as nat) + ",\"count_3xx\":"@ + dec_digits(v.count_3xx as nat) + ",\"count_4xx\":"@ + dec_digits(v.count_4xx as nat) + ",\"count_5xx\":"@ + dec_digits(v.count_5xx as nat) + ",\"count_fail\":"@, dec_digits(v.count_fail as nat), u1);
    let u3 = ",\"count_fail\":"@ + u2;
    lemma_shift("{\"hostname\":"@ + spec_enc_opt_str(v.hostname) + ",\"socket\":"@ + spec_enc_opt_str(v.socket) + ",\"state\":"@ + spec_enc_state(v.state) + ",\"elapsed\":"@ + spec_enc_opt_elapsed(v.elapsed) + ",\"tasks\":"@ + dec_digits(v.tasks as nat) + ",\"task_queue\":"@ + dec_digits(v.task_queue as nat) + ",\"tasks_max\":"@ + dec_digits(v.tasks_max as nat) + ",\"min\":"@ + dec_digits(v.min as nat) + ",\"max\":"@ + dec_digits(v.max as nat) + ",\"mean\":"@ + dec_digits(v.mean as nat) + ",\"stdev\":"@ + dec_digits(v.stdev as nat) + ",\"median\":"@ + dec_digits(v.median as nat) + ",\"p90\":"@ + dec_digits(v.p90 as nat) + ",\"count\":"@ + dec_digits(v.count as nat) + ",\"count_1xx\":"@ + dec_digits(v.count_1xx as nat) + ",\"count_2xx\":"@ + dec_digits(v.count_2xx as nat) + ",\"count_3xx\":"@ + dec_digits(v.count_3xx as nat) + ",\"count_4xx\":"@ + dec_digits(v.count_4xx as nat) + ",\"count_5xx\":"@ + dec_digits(v.count_5xx as nat), ",\"count_fail\":"@, u2);
    let u4 = dec_digits(v.count_5xx as nat) + u3;
    lemma_shift("{\"hostname\":"@ + spec_enc_opt_str(v.hostname) + ",\"socket\":"@ + spec_enc_opt_str(v.socket) + ",\"state\":"@ + spec_enc_state(v.state) + ",\"elapsed\":"@ + spec_enc_opt_elapsed(v.elapsed) + ",\"tasks\":"@ + dec_digits(v.tasks as nat) + ",\"task_queue\":"@ + dec_digits(v.task_queue as nat) + ",\"tasks_max\":"@ + dec_digits(v.tasks_max as nat) + ",\"min\":"@ + dec_digits(v.min as nat) + ",\"max\":"@ + dec_digits(v.max as nat) + ",\"mean\":"@ + dec_digits(v.mean as nat) + ",\"stdev\":"@ + dec_digits(v.stdev as nat) + ",\"median\":"@ + dec_digits(v.median as nat) + ",\"p90\":"@ + dec_digits(v.p90 as nat) + ",\"count\":"@ + dec_digits(v.count as nat) + ",\"count_1xx\":"@ + dec_digits(v.count_1xx as nat) + ",\"count_2xx\":"@ + dec_digits(v.count_2xx as nat) + ",\"count_3xx\":"@ + dec_digits(v.count_3xx as nat) + ",\"count_4xx\":"@ + dec_digits(v.count_4xx as nat) + ",\"count_5xx\":"@, dec_digits(v.count_5xx as nat), u3);
    let u5 = ",\"count_5xx\":"@ + u4;
    lemma_shift("{\"hostname\":"@ + spec_enc_opt_str(v.hostname) + ",\"socket\":"@ + spec_enc_opt_str(v.socket) + ",\"state\":"@ + spec_enc_state(v.state) + ",\"elapsed\":"@ + spec_enc_opt_elapsed(v.elapsed) + ",\"tasks\":"@ + dec_digits(v.tasks as nat) + ",\"task_queue\":"@ + dec_digits(v.task_queue as nat) + ",\"tasks_max\":"@ + dec_digits(v.tasks_max as nat) + ",\"min\":"@ + dec_digits(v.min as nat) + ",\"max\":"@ + dec_digits(v.max as nat) + ",\"mean\":"@ + dec_digits(v.mean as nat) + ",\"stdev\":"@ + dec_digits(v.stdev as nat) + ",\"median\":"@ + dec_digits(v.median as nat) + ",\"p90\":"@ + dec_digits(v.p90 as nat) + ",\"count\":"@ + dec_digits(v.count as nat) + ",\"count_1xx\":"@ + dec_digits(v.count_1xx as nat) + ",\"count_2xx\":"@ + dec_digits(v.count_2xx as nat) + ",\"count_3xx\":"@ + dec_digits(v.count_3xx as nat) + ",\"count_4xx\":"@ + dec_digits(v.count_4xx as nat), ",\"count_5xx\":"@, u4);
    let u6 = dec_digits(v.count_4xx as nat) + u5;
    lemma_shift("{\"hostname\":"@ + spec_enc_opt_str(v.hostname) + ",\"socket\":"@ + spec_enc_opt_str(v.socket) + ",\"state\":"@ + spec_enc_state(v.state) + ",\"elapsed\":"@ + spec_enc_opt_elapsed(v.elapsed) + ",\"tasks\":"@ + dec_digits(v.tasks as nat) + ",\"task_queue\":"@ + dec_digits(v.task_queue as nat) + ",\"tasks_max\":"@ + dec_digits(v.tasks_max as nat) + ",\"min\":"@ + dec_digits(v.min as nat) + ",\"max\":"@ + dec_digits(v.max as nat) + ",\"mean\":"@ + dec_digits(v.mean as nat) + ",\"stdev\":"@ + dec_digits(v.stdev as nat) + ",\"median\":"@ + dec_digits(v.median as nat) + ",\"p90\":"@ + dec_digits(v.p90 as nat) + ",\"count\":"@ + dec_digits(v.count as nat) + ",\"count_1xx\":"@ + dec_digits(v.count_1xx as nat) + ",\"count_2xx\":"@ + dec_digits(v.count_2xx as nat) + ",\"count_3xx\":"@ + dec_digits(v.count_3xx as nat) + ",\"count_4xx\":"@, dec_digits(v.count_4xx as nat), u5);
    let u7 = ",\"count_4xx\":"@ + u6;
    lemma_shift("{\"hostname\":"@ + spec_enc_opt_str(v.hostname) + ",\"socket\":"@ + spec_enc_opt_str(v.socket) + ",\"state\":"@ + spec_enc_state(v.state) + ",\"elapsed\":"@ + spec_enc_opt_elapsed(v.elapsed) + ",\"tasks\":"@ + dec_digits(v.tasks as nat) + ",\"task_queue\":"@ + dec_digits(v.task_queue as nat) + ",\"tasks_max\":"@ + dec_digits(v.tasks_max as nat) + ",\"min\":"@ + dec_digits(v.min as nat) + ",\"max\":"@ + dec_digits(v.max as nat) + ",\"mean\":"@ + dec_digits(v.mean as nat) + ",\"stdev\":"@ + dec_digits(v.stdev as nat) + ",\"median\":"@ + dec_digits(v.median as nat) + ",\"p90\":"@ + dec_digits(v.p90 as nat) + ",\"count\":"@ + dec_digits(v.count as nat) + ",\"count_1xx\":"@ + dec_digits(v.count_1xx as nat) + ",\"count_2xx\":"@ + dec_digits(v.count_2xx as nat) + ",\"count_3xx\":"@ + dec_digits(v.count_3xx as nat), ",\"count_4xx\":"@, u6);
    let u8 = dec_digits(v.count_3xx as nat) + u7;
    lemma_shift("{\"hostname\":"@ + spec_enc_opt_str(v.hostname) + ",\"socket\":"@ + spec_enc_opt_str(v.socket) + ",\"state\":"@ + spec_enc_state(v.state) + ",\"elapsed\":"@ + spec_enc_opt_elapsed(v.elapsed) + ",\"tasks\":"@ + dec_digits(v.tasks as nat) + ",\"task_queue\":"@ + dec_digits(v.task_queue as nat) + ",\"tasks_max\":"@ + dec_digits(v.tasks_max as nat) + ",\"min\":"@ + dec_digits(v.min as nat) + ",\"max\":"@ + dec_digits(v.max as nat) + ",\"mean\":"@ + dec_digits(v.mean as nat) + ",\"stdev\":"@ + dec_digits(v.stdev as nat) + ",\"median\":"@ + dec_digits(v.median as nat) + ",\"p90\":"@ + dec_digits(v.p90 as nat) + ",\"count\":"@ + dec_digits(v.count as nat) + ",\"count_1xx\":"@ + dec_digits(v.count_1xx as nat) + ",\"count_2xx\":"@ + dec_digits(v.count_2xx as nat) + ",\"count_3xx\":"@, dec_digits(v.count_3xx as nat), u7);
    let u9 = ",\"count_3xx\":"@ + u8;
    lemma_shift("{\"hostname\":"@ + spec_enc_opt_str(v.hostname) + ",\"socket\":"@ + spec_enc_opt_str(v.socket) + ",\"state\":"@ + spec_enc_state(v.state) + ",\"elapsed\":"@ + spec_enc_opt_elapsed(v.elapsed) + ",\"tasks\":"@ + dec_digits(v.tasks as nat) + ",\"task_queue\":"@ + dec_digits(v.task_queue as nat) + ",\"tasks_max\":"@ + dec_digits(v.tasks_max as nat) + ",\"min\":"@ + dec_digits(v.min as nat) + ",\"max\":"@ + dec_digits(v.max as nat) + ",\"mean\":"@ + dec_digits(v.mean as nat) + ",\"stdev\":"@ + dec_digits(v.stdev as nat) + ",\"median\":"@ + dec_digits(v.median as nat) + ",\"p90\":"@ + dec_digits(v.p90 as nat) + ",\"count\":"@ + dec_digits(v.count as nat) + ",\"count_1xx\":"@ + dec_digits(v.count_1xx as nat) + ",\"count_2xx\":"@ + dec_digits(v.count_2xx as nat), ",\"count_3xx\":"@, u8);
    let u10 = dec_digits(v.count_2xx as nat) + u9;
    lemma_shift("{\"hostname\":"@ + spec_enc_opt_str(v.hostname) + ",\"socket\":"@ + spec_enc_opt_str(v.socket) + ",\"state\":"@ + spec_enc_state(v.state) + ",\"elapsed\":"@ + spec_enc_opt_elapsed(v.elapsed) + ",\"tasks\":"@ + dec_digits(v.tasks as nat) + ",\"task_queue\":"@ + dec_digits(v.task_queue as nat) + ",\"tasks_max\":"@ + dec_digits(v.tasks_max as nat) + ",\"min\":"@ + dec_digits(v.min as nat) + ",\"max\":"@ + dec_digits(v.max as nat) + ",\"mean\":"@ + dec_digits(v.mean as nat) + ",\"stdev\":"@ + dec_digits(v.stdev as nat) + ",\"median\":"@ + dec_digits(v.median as nat) + ",\"p90\":"@ + dec_digits(v.p90 as nat) + ",\"count\":"@ + dec_digits(v.count as nat) + ",\"count_1xx\":"@ + dec_digits(v.count_1xx as nat) + ",\"count_2xx\":"@, dec_digits(v.count_2xx as nat), u9);
    let u11 = ",\"count_2xx\":"@ + u10;
    lemma_shift("{\"hostname\":"@ + spec_enc_opt_str(v.hostname) + ",\"socket\":"@ + spec_enc_opt_str(v.socket) + ",\"state\":"@ + spec_enc_state(v.state) + ",\"elapsed\":"@ + spec_enc_opt_elapsed(v.elapsed) + ",\"tasks\":"@ + dec_digits(v.tasks as nat) + ",\"task_queue\":"@ + dec_digits(v.task_queue as nat) + ",\"tasks_max\":"@ + dec_digits(v.tasks_max as nat) + ",\"min\":"@ + dec_digits(v.min as nat) + ",\"max\":"@ + dec_digits(v.max as nat) + ",\"mean\":"@ + dec_digits(v.mean as nat) + ",\"stdev\":"@ + dec_digits(v.stdev as nat) + ",\"median\":"@ + dec_digits(v.median as nat) + ",\"p90\":"@ + dec_digits(v.p90 as nat) + ",\"count\":"@ + dec_digits(v.count as nat) + ",\"count_1xx\":"@ + dec_digits(v.count_1xx as nat), ",\"count_2xx\":"@, u10);
    let u12 = dec_digits(v.count_1xx as nat) + u11;
    lemma_shift("{\"hostname\":"@ + spec_enc_opt_str(v.hostname) + ",\"socket\":"@ + spec_enc_opt_str(v.socket) + ",\"state\":"@ + spec_enc_state(v.state) + ",\"elapsed\":"@ + spec_enc_opt_elapsed(v.elapsed) + ",\"tasks\":"@ + dec_digits(v.tasks as nat) + ",\"task_queue\":"@ + dec_digits(v.task_queue as nat) + ",\"tasks_max\":"@ + dec_digits(v.tasks_max as nat) + ",\"min\":"@ + dec_digits(v.min as nat) + ",\"max\":"@ + dec_digits(v.max as nat) + ",\"mean\":"@ + dec_digits(v.mean as nat) + ",\"stdev\":"@ + dec_digits(v.stdev as nat) + ",\"median\":"@ + dec_digits(v.median as nat) + ",\"p90\":"@ + dec_digits(v.p90 as nat) + ",\"count\":"@ + dec_digits(v.count as nat) + ",\"count_1xx\":"@, dec_digits(v.count_1xx as nat), u11);
    let u13 = ",\"count_1xx\":"@ + u12;
    lemma_shift("{\"hostname\":"@ + spec_enc_opt_str(v.hostname) + ",\"socket\":"@ + spec_enc_opt_str(v.socket) + ",\"state\":"@ + spec_enc_state(v.state) + ",\"elapsed\":"@ + spec_enc_opt_elapsed(v.elapsed) + ",\"tasks\":"@ + dec_digits(v.tasks as nat) + ",\"task_queue\":"@ + dec_digits(v.task_queue as nat) + ",\"tasks_max\":"@ + dec_digits(v.tasks_max as nat) + ",\"min\":"@ + dec_digits(v.min as nat) + ",\"max\":"@ + dec_digits(v.max as nat) + ",\"mean\":"@ + dec_digits(v.mean as nat) + ",\"stdev\":"@ + dec_digits(v.stdev as nat) + ",\"median\":"@ + dec_digits(v.median as nat) + ",\"p90\":"@ + dec_digits(v.p90 as nat) + ",\"count\":"@ + dec_digits(v.count as nat), ",\"count_1xx\":"@, u12);
    let u14 = dec_digits(v.count as nat) + u13;
    lemma_shift("{\"hostname\":"@ + spec_enc_opt_str(v.hostname) + ",\"socket\":"@ + spec_enc_opt_str(v.socket) + ",\"state\":"@ + spec_enc_state(v.state) + ",\"elapsed\":"@ + spec_enc_opt_elapsed(v.elapsed) + ",\"tasks\":"@ + dec_digits(v.tasks as nat) + ",\"task_queue\":"@ + dec_digits(v.task_queue as nat) + ",\"tasks_max\":"@ + dec_digits(v.tasks_max as nat) + ",\"min\":"@ + dec_digits(v.min as nat) + ",\"max\":"@ + dec_digits(v.max as nat) + ",\"mean\":"@ + dec_digits(v.mean as nat) + ",\"stdev\":"@ + dec_digits(v.stdev as nat) + ",\"median\":"@ + dec_digits(v.median as nat) + ",\"p90\":"@ + dec_digits(v.p90 as nat) + ",\"count\":"@, dec_digits(v.count as nat), u13);
    let u15 = ",\"count\":"@ + u14;
    lemma_shift("{\"hostname\":"@ + spec_enc_opt_str(v.hostname) + ",\"socket\":"@ + spec_enc_opt_str(v.socket) + ",\"state\":"@ + spec_enc_state(v.state) + ",\"elapsed\":"@ + spec_enc_opt_elapsed(v.elapsed) + ",\"tasks\":"@ + dec_digits(v.tasks as nat) + ",\"task_queue\":"@ + dec_digits(v.task_queue as nat) + ",\"tasks_max\":"@ + dec_digits(v.tasks_max as nat) + ",\"min\":"@ + dec_digits(v.min as nat) + ",\"max\":"@ + dec_digits(v.max as nat) + ",\"mean\":"@ + dec_digits(v.mean as nat) + ",\"stdev\":"@ + dec_digits(v.stdev as nat) + ",\"median\":"@ + dec_digits(v.median as nat) + ",\"p90\":"@ + dec_digits(v.p90 as nat), ",\"count\":"@, u14);
    let u16 = dec_digits(v.p90 as nat) + u15;
    lemma_shift("{\"hostname\":"@ + spec_enc_opt_str(v.hostname) + ",\"socket\":"@ + spec_enc_opt_str(v.socket) + ",\"state\":"@ + spec_enc_state(v.state) + ",\"elapsed\":"@ + spec_enc_opt_elapsed(v.elapsed) + ",\"tasks\":"@ + dec_digits(v.tasks as nat) + ",\"task_queue\":"@ + dec_digits(v.task_queue as nat) + ",\"tasks_max\":"@ + dec_digits(v.tasks_max as nat) + ",\"min\":"@ + dec_digits(v.min as nat) + ",\"max\":"@ + dec_digits(v.max as nat) + ",\"mean\":"@ + dec_digits(v.mean as nat) + ",\"stdev\":"@ + dec_digits(v.stdev as nat) + ",\"median\":"@ + dec_digits(v.median as nat) + ",\"p90\":"@, dec_digits(v.p90 as nat), u15);
    let u17 = ",\"p90\":"@ + u16;
    lemma_shift("{\"hostname\":"@ + spec_enc_opt_str(v.hostname) + ",\"socket\":"@ + spec_enc_opt_str(v.socket) + ",\"state\":"@ + spec_enc_state(v.state) + ",\"elapsed\":"@ + spec_enc_opt_elapsed(v.elapsed) + ",\"tasks\":"@ + dec_digits(v.tasks as nat) + ",\"task_queue\":"@ + dec_digits(v.task_queue as nat) + ",\"tasks_max\":"@ + dec_digits(v.tasks_max as nat) + ",\"min\":"@ + dec_digits(v.min as nat) + ",\"max\":"@ + dec_digits(v.max as nat) + ",\"mean\":"@ + dec_digits(v.mean as nat) + ",\"stdev\":"@ + dec_digits(v.stdev as nat) + ",\"median\":"@ + dec_digits(v.median as nat), ",\"p90\":"@, u16);
    let u18 = dec_digits(v.median as nat) + u17;
    lemma_shift("{\"hostname\":"@ + spec_enc_opt_str(v.hostname) + ",\"socket\":"@ + spec_enc_opt_str(v.socket) + ",\"state\":"@ + spec_enc_state(v.state) + ",\"elapsed\":"@ + spec_enc_opt_elapsed(v.elapsed) + ",\"tasks\":"@ + dec_digits(v.tasks as nat) + ",\"task_queue\":"@ + dec_digits(v.task_queue as nat) + ",\"tasks_max\":"@ + dec_digits(v.tasks_max as nat) + ",\"min\":"@ + dec_digits(v.min as nat) + ",\"max\":"@ + dec_digits(v.max as nat) + ",\"mean\":"@ + dec_digits(v.mean as nat) + ",\"stdev\":"@ + dec_digits(v.stdev as nat) + ",\"median\":"@, dec_digits(v.median as nat), u17);
    let u19 = ",\"median\":"@ + u18;
    lemma_shift("{\"hostname\":"@ + spec_enc_opt_str(v.hostname) + ",\"socket\":"@ + spec_enc_opt_str(v.socket) + ",\"state\":"@ + spec_enc_state(v.state) + ",\"elapsed\":"@ + spec_enc_opt_elapsed(v.elapsed) + ",\"tasks\":"@ + dec_digits(v.tasks as nat) + ",\"task_queue\":"@ + dec_digits(v.task_queue as nat) + ",\"tasks_max\":"@ + dec_digits(v.tasks_max as nat) + ",\"min\":"@ + dec_digits(v.min as nat) + ",\"max\":"@ + dec_digits(v.max as nat) + ",\"mean\":"@ + dec_digits(v.mean as nat) + ",\"stdev\":"@ + dec_digits(v.stdev as nat), ",\"median\":"@, u18);
    let u20 = dec_digits(v.stdev as nat) + u19;
    lemma_shift("{\"hostname\":"@ + spec_enc_opt_str(v.hostname) + ",\"socket\":"@ + spec_enc_opt_str(v.socket) + ",\"state\":"@ + spec_enc_state(v.state) + ",\"elapsed\":"@ + spec_enc_opt_elapsed(v.elapsed) + ",\"tasks\":"@ + dec_digits(v.tasks as nat) + ",\"task_queue\":"@ + dec_digits(v.task_queue as nat) + ",\"tasks_max\":"@ + dec_digits(v.tasks_max as nat) + ",\"min\":"@ + dec_digits(v.min as nat) + ",\"max\":"@ + dec_digits(v.max as nat) + ",\"mean\":"@ + dec_digits(v.mean as nat) + ",\"stdev\":"@, dec_digits(v.stdev as nat), u19);
    let u21 = ",\"stdev\":"@ + u20;
    lemma_shift("{\"hostname\":"@ + spec_enc_opt_str(v.hostname) + ",\"socket\":"@ + spec_enc_opt_str(v.socket) + ",\"state\":"@ + spec_enc_state(v.state) + ",\"elapsed\":"@ + spec_enc_opt_elapsed(v.elapsed) + ",\"tasks\":"@ + dec_digits(v.tasks as nat) + ",\"task_queue\":"@ + dec_digits(v.task_queue as nat) + ",\"tasks_max\":"@ + dec_digits(v.tasks_max as nat) + ",\"min\":"@ + dec_digits(v.min as nat) + ",\"max\":"@ + dec_digits(v.max as nat) + ",\"mean\":"@ + dec_digits(v.mean as nat), ",\"stdev\":"@, u20);
    let u22 = dec_digits(v.mean as nat) + u21;
    lemma_shift("{\"hostname\":"@ + spec_enc_opt_str(v.hostname) + ",\"socket\":"@ + spec_enc_opt_str(v.socket) + ",\"state\":"@ + spec_enc_state(v.state) + ",\"elapsed\":"@ + spec_enc_opt_elapsed(v.elapsed) + ",\"tasks\":"@ + dec_digits(v.tasks as nat) + ",\"task_queue\":"@ + dec_digits(v.task_queue as nat) + ",\"tasks_max\":"@ + dec_digits(v.tasks_max as nat) + ",\"min\":"@ + dec_digits(v.min as nat) + ",\"max\":"@ + dec_digits(v.max as nat) + ",\"mean\":"@, dec_digits(v.mean as nat), u21);
    let u23 = ",\"mean\":"@ + u22;
    lemma_shift("{\"hostname\":"@ + spec_enc_opt_str(v.hostname) + ",\"socket\":"@ + spec_enc_opt_str(v.socket) + ",\"state\":"@ + spec_enc_state(v.state) + ",\"elapsed\":"@ + spec_enc_opt_elapsed(v.elapsed) + ",\"tasks\":"@ + dec_digits(v.tasks as nat) + ",\"task_queue\":"@ + dec_digits(v.task_queue as nat) + ",\"tasks_max\":"@ + dec_digits(v.tasks_max as nat) + ",\"min\":"@ + dec_digits(v.min as nat) + ",\"max\":"@ + dec_digits(v.max as nat), ",\"mean\":"@, u22);
    let u24 = dec_digits(v.max as nat) + u23;
    lemma_shift("{\"hostname\":"@ + spec_enc_opt_str(v.hostname) + ",\"socket\":"@ + spec_enc_opt_str(v.socket) + ",\"state\":"@ + spec_enc_state(v.state) + ",\"elapsed\":"@ + spec_enc_opt_elapsed(v.elapsed) + ",\"tasks\":"@ + dec_digits(v.tasks as nat) + ",\"task_queue\":"@ + dec_digits(v.task_queue as nat) + ",\"tasks_max\":"@ + dec_digits(v.tasks_max as nat) + ",\"min\":"@ + dec_digits(v.min as nat) + ",\"max\":"@, dec_digits(v.max as nat), u23);
    let u25 = ",\"max\":"@ + u24;
    lemma_shift("{\"hostname\":"@ + spec_enc_opt_str(v.hostname) + ",\"socket\":"@ + spec_enc_opt_str(v.socket) + ",\"state\":"@ + spec_enc_state(v.state) + ",\"elapsed\":"@ + spec_enc_opt_elapsed(v.elapsed) + ",\"tasks\":"@ + dec_digits(v.tasks as nat) + ",\"task_queue\":"@ + dec_digits(v.task_queue as nat) + ",\"tasks_max\":"@ + dec_digits(v.tasks_max as nat) + ",\"min\":"@ + dec_digits(v.min as nat), ",\"max\":"@, u24);
    let u26 = dec_digits(v.min as nat) + u25;
    lemma_shift("{\"hostname\":"@ + spec_enc_opt_str(v.hostname) + ",\"socket\":"@ + spec_enc_opt_str(v.socket) + ",\"state\":"@ + spec_enc_state(v.state) + ",\"elapsed\":"@ + spec_enc_opt_elapsed(v.elapsed) + ",\"tasks\":"@ + dec_digits(v.tasks as nat) + ",\"task_queue\":"@ + dec_digits(v.task_queue as nat) + ",\"tasks_max\":"@ + dec_digits(v.tasks_max as nat) + ",\"min\":"@, dec_digits(v.min as nat), u25);
    let u27 = ",\"min\":"@ + u26;
    lemma_shift("{\"hostname\":"@ + spec_enc_opt_str(v.hostname) + ",\"socket\":"@ + spec_enc_opt_str(v.socket) + ",\"state\":"@ + spec_enc_state(v.state) + ",\"elapsed\":"@ + spec_enc_opt_elapsed(v.elapsed) + ",\"tasks\":"@ + dec_digits(v.tasks as nat) + ",\"task_queue\":"@ + dec_digits(v.task_queue as nat) + ",\"tasks_max\":"@ + dec_digits(v.tasks_max as nat), ",\"min\":"@, u26);
    let u28 = dec_digits(v.tasks_max as nat) + u27;
    lemma_shift("{\"hostname\":"@ + spec_enc_opt_str(v.hostname) + ",\"socket\":"@ + spec_enc_opt_str(v.socket) + ",\"state\":"@ + spec_enc_state(v.state) + ",\"elapsed\":"@ + spec_enc_opt_elapsed(v.elapsed) + ",\"tasks\":"@ + dec_digits(v.tasks as nat) + ",\"task_queue\":"@ + dec_digits(v.task_queue as nat) + ",\"tasks_max\":"@, dec_digits(v.tasks_max as nat), u27);
    let u29 = ",\"tasks_max\":"@ + u28;
    lemma_shift("{\"hostname\":"@ + spec_enc_opt_str(v.hostname) + ",\"socket\":"@ + spec_enc_opt_str(v.socket) + ",\"state\":"@ + spec_enc_state(v.state) + ",\"elapsed\":"@ + spec_enc_opt_elapsed(v.elapsed) + ",\"tasks\":"@ + dec_digits(v.tasks as nat) + ",\"task_queue\":"@ + dec_digits(v.task_queue as nat), ",\"tasks_max\":"@, u28);
    let u30 = dec_digits(v.task_queue as nat) + u29;
    lemma_shift("{\"hostname\":"@ + spec_enc_opt_str(v.hostname) + ",\"socket\":"@ + spec_enc_opt_str(v.socket) + ",\"state\":"@ + spec_enc_state(v.state) + ",\"elapsed\":"@ + spec_enc_opt_elapsed(v.elapsed) + ",\"tasks\":"@ + dec_digits(v.tasks as nat) + ",\"task_queue\":"@, dec_digits(v.task_queue as nat), u29);
    let u31 = ",\"task_queue\":"@ + u30;
    lemma_shift("{\"hostname\":"@ + spec_enc_opt_str(v.hostname) + ",\"socket\":"@ + spec_enc_opt_str(v.socket) + ",\"state\":"@ + spec_enc_state(v.state) + ",\"elapsed\":"@ + spec_enc_opt_elapsed(v.elapsed) + ",\"tasks\":"@ + dec_digits(v.tasks as nat), ",\"task_queue\":"@, u30);
    let u32 = dec_digits(v.tasks as nat) + u31;
    lemma_shift("{\"hostname\":"@ + spec_enc_opt_str(v.hostname) + ",\"socket\":"@ + spec_enc_opt_str(v.socket) + ",\"state\":"@ + spec_enc_state(v.state) + ",\"elapsed\":"@ + spec_enc_opt_elapsed(v.elapsed) + ",\"tasks\":"@, dec_digits(v.tasks as nat), u31);
    let u33 = ",\"tasks\":"@ + u32;
    lemma_shift("{\"hostname\":"@ + spec_enc_opt_str(v.hostname) + ",\"socket\":"@ + spec_enc_opt_str(v.socket) + ",\"state\":"@ + spec_enc_state(v.state) + ",\"elapsed\":"@ + spec_enc_opt_elapsed(v.elapsed), ",\"tasks\":"@, u32);
    let u34 = spec_enc_opt_elapsed(v.elapsed) + u33;
    lemma_shift("{\"hostname\":"@ + spec_enc_opt_str(v.hostname) + ",\"socket\":"@ + spec_enc_opt_str(v.socket) + ",\"state\":"@ + spec_enc_state(v.state) + ",\"elapsed\":"@, spec_enc_opt_elapsed(v.elapsed), u33);
    let u35 = ",\"elapsed\":"@ + u34;
    lemma_shift("{\"hostname\":"@ + spec_enc_opt_str(v.hostname) + ",\"socket\":"@ + spec_enc_opt_str(v.socket) + ",\"state\":"@ + spec_enc_state(v.state), ",\"elapsed\":"@, u34);
    let u36 = spec_enc_state(v.state) + u35;
    lemma_shift("{\"hostname\":"@ + spec_enc_opt_str(v.hostname) + ",\"socket\":"@ + spec_enc_opt_str(v.socket) + ",\"state\":"@, spec_enc_state(v.state), u35);
    let u37 = ",\"state\":"@ + u36;
    lemma_shift("{\"hostname\":"@ + spec_enc_opt_str(v.hostname) + ",\"socket\":"@ + spec_enc_opt_str(v.socket), ",\"state\":"@, u36);
    let u38 = spec_enc_opt_str(v.socket) + u37;
    lemma_shift("{\"hostname\":"@ + spec_enc_opt_str(v.hostname) + ",\"socket\":"@, spec_enc_opt_str(v.socket), u37);
    let u39 = ",\"socket\":"@ + u38;
    lemma_shift("{\"hostname\":"@ + spec_enc_opt_str(v.hostname), ",\"socket\":"@, u38);
    let u40 = spec_enc_opt_str(v.hostname) + u39;
    lemma_shift("{\"hostname\":"@, spec_enc_opt_str(v.hostname), u39);
    lemma_expect_prefix("{\"hostname\":"@, u40);
    lemma_opt_str_round_trip(v.hostname, u39);
    lemma_expect_prefix(",\"socket\":"@, u38);
    lemma_opt_str_round_trip(v.socket, u37);
    lemma_expect_prefix(",\"state\":"@, u36);
    lemma_state_round_trip(v.state, u35);
    lemma_expect_prefix(",\"elapsed\":"@, u34);
    lemma_opt_elapsed_round_trip(v.elapsed, u33);
    lemma_expect_prefix(",\"tasks\":"@, u32);
    lemma_u64_round_trip(v.tasks as u64, u31);
    lemma_expect_prefix(",\"task_queue\":"@, u30);
    lemma_u64_round_trip(v.task_queue as u64, u29);
    lemma_expect_prefix(",\"tasks_max\":"@, u28);
    lemma_u64_round_trip(v.tasks_max as u64, u27);
    lemma_expect_prefix(",\"min\":"@, u26);
    lemma_u64_round_trip(v.min, u25);
    lemma_expect_prefix(",\"max\":"@, u24);
    lemma_u64_round_trip(v.max, u23);
    lemma_expect_prefix(",\"mean\":"@, u22);
    lemma_u64_round_trip(v.mean, u21);
    assert(spec_skip_frac(u21) == u21);
    lemma_expect_prefix(",\"stdev\":"@, u20);
    lemma_u64_round_trip(v.stdev, u19);
    assert(spec_skip_frac(u19) == u19);
    lemma_expect_prefix(",\"median\":"@, u18);
    lemma_u64_round_trip(v.median, u17);
    lemma_expect_prefix(",\"p90\":"@, u16);
    lemma_u64_round_trip(v.p90, u15);
    lemma_expect_prefix(",\"count\":"@, u14);
    lemma_u64_round_trip(v.count as u64, u13);
    lemma_expect_prefix(",\"count_1xx\":"@, u12);
    lemma_u64_round_trip(v.count_1xx as u64, u11);
    lemma_expect_prefix(",\"count_2xx\":"@, u10);
    lemma_u64_round_trip(v.count_2xx as u64, u9);
    lemma_expect_prefix(",\"count_3xx\":"@, u8);
    lemma_u64_round_trip(v.count_3xx as u64, u7);
    lemma_expect_prefix(",\"count_4xx\":"@, u6);
    lemma_u64_round_trip(v.count_4xx as u64, u5);
    lemma_expect_prefix(",\"count_5xx\":"@, u4);
    lemma_u64_round_trip(v.count_5xx as u64, u3);
    lemma_expect_prefix(",\"count_fail\":"@, u2);
    lemma_u64_round_trip(v.count_fail as u64, u1);
    lemma_expect_prefix("}"@, tail);
}

// ---------------------------------------------------------------------
// Executable encoders for scalar pieces
// ---------------------------------------------------------------------

pub fn push_version(out: &mut Vec<char>, v: HttpVersion)
    ensures
        final(out)@ == old(out)@ + spec_enc_version(v),
{
    match v {
        HttpVersion::Http11 => push_string(out, "Http11"),
        HttpVersion::Http2 => push_string(out, "Http2"),
    }
}

pub fn push_method(out: &mut Vec<char>, m: RequestMethod)
    ensures
        final(out)@ == old(out)@ + spec_enc_method(m),
{
    match m {
        RequestMethod::GET => push_string(out, "GET"),
        RequestMethod::POST => push_string(out, "POST"),
        RequestMethod::PUT => push_string(out, "PUT"),
        RequestMethod::DELETE => push_string(out, "DELETE"),
        RequestMethod::HEAD => push_string(out, "HEAD"),
        RequestMethod::OPTIONS => push_string(out, "OPTIONS"),
        RequestMethod::CONNECT => push_string(out, "CONNECT"),
        RequestMethod::PATCH => push_string(out, "PATCH"),
        RequestMethod::TRACE => push_string(out, "TRACE"),
    }
}

pub fn push_strategy(out: &mut Vec<char>, st: AttackStrategy)
    ensures
        final(out)@ == old(out)@ + spec_enc_strategy(st),
{
    match st {
        AttackStrategy::Random => push_string(out, "Random"),
        AttackStrategy::InOrder => push_string(out, "InOrder"),
    }
}

pub fn push_state(out: &mut Vec<char>, w: WorkerState)
    ensures
        final(out)@ == old(out)@ + spec_enc_state(w),
{
    match w {
        WorkerState::Idle => push_string(out, "Idle"),
        WorkerState::Busy => push_string(out, "Busy"),
    }
}

pub fn push_opt_str(out: &mut Vec<char>, o: &Option<String>)
    ensures
        final(out)@ == old(out)@ + spec_enc_opt_str(view_opt_string(*o)),
{
    match o {
        None => push_lit(out, "null"),
        Some(x) => push_string(out, x.as_str()),
    }
}

pub fn push_elapsed(out: &mut Vec<char>, e: &ElapsedTime)
    ensures
        final(out)@ == old(out)@ + spec_enc_elapsed(*e),
{
    push_lit(out, "{\"secs\":");
    push_u64(out, e.secs);
    push_lit(out, ",\"nanos\":");
    push_u64(out, e.nanos as u64);
    push_lit(out, "}");
    proof {
        assert(out@ =~= old(out)@ + spec_enc_elapsed(*e));
    }
}

pub fn push_opt_elapsed(out: &mut Vec<char>, o: &Option<ElapsedTime>)
    ensures
        final(out)@ == old(out)@ + spec_enc_opt_elapsed(*o),
{
    match o {
        None => push_lit(out, "null"),
        Some(e) => push_elapsed(out, e),
    }
}

// ---------------------------------------------------------------------
// Executable parsers for scalar pieces
// ---------------------------------------------------------------------

pub fn parse_version_at(s: &Vec<char>, i: usize) -> (r: Option<(HttpVersion, usize)>)
    requires
        i <= s.len(),
    ensures
        match r {
            Some((v, j)) => i < j <= s.len() && spec_parse_version(s@.skip(i as int)) == Some(
                (v, s@.skip(j as int)),
            ),
            None => spec_parse_version(s@.skip(i as int)) is None,
        },
{
    match parse_string(s, i) {
        Some((name, j)) => {
            if str_eq(name.as_str(), "Http11") {
                Some((HttpVersion::Http11, j))
            } else if str_eq(name.as_str(), "Http2") {
                Some((HttpVersion::Http2, j))
            } else {
                None
            }
        },
        None => None,
    }
}

pub fn parse_method_at(s: &Vec<char>, i: usize) -> (r: Option<(RequestMethod, usize)>)
    requires
        i <= s.len(),
    ensures
        match r {
            Some((m, j)) => i < j <= s.len() && spec_parse_method(s@.skip(i as int)) == Some(
                (m, s@.skip(j as int)),
            ),
            None => spec_parse_method(s@.skip(i as int)) is None,
        },
{
    match parse_string(s, i) {
        Some((name, j)) => {
            let n = name.as_str();
            if str_eq(n, "GET") {
                Some((RequestMethod::GET, j))
            } else if str_eq(n, "POST") {
                Some((RequestMethod::POST, j))
            } else if str_eq(n, "PUT") {
                Some((RequestMethod::PUT, j))
            } else if str_eq(n, "DELETE") {
                Some((RequestMethod::DELETE, j))
            } else if str_eq(n, "HEAD") {
                Some((RequestMethod::HEAD, j))
            } else if str_eq(n, "OPTIONS") {
                Some((RequestMethod::OPTIONS, j))
            } else if str_eq(n, "CONNECT") {
                Some((RequestMethod::CONNECT, j))
            } else if str_eq(n, "PATCH") {
                Some((RequestMethod::PATCH, j))
            } else if str_eq(n, "TRACE") {
                Some((RequestMethod::TRACE, j))
            } else {
                None
            }
        },
        None => None,
    }
}

pub fn parse_strategy_at(s: &Vec<char>, i: usize) -> (r: Option<(AttackStrategy, usize)>)
    requires
        i <= s.len(),
    ensures
        match r {
            Some((st, j)) => i < j <= s.len() && spec_parse_strategy(s@.skip(i as int)) == Some(
                (st, s@.skip(j as int)),
            ),
            None => spec_parse_strategy(s@.skip(i as int)) is None,
        },
{
    match parse_string(s, i) {
        Some((name, j)) => {
            if str_eq(name.as_str(), "Random") {
                Some((AttackStrategy::Random, j))
            } else if str_eq(name.as_str(), "InOrder") {
                Some((AttackStrategy::InOrder, j))
            } else {
                None
            }
        },
        None => None,
    }
}

pub fn parse_state_at(s: &Vec<char>, i: usize) -> (r: Option<(WorkerState, usize)>)
    requires
        i <= s.len(),
    ensures
        match r {
            Some((w, j)) => i < j <= s.len() && spec_parse_state(s@.skip(i as int)) == Some(
                (w, s@.skip(j as int)),
            ),
            None => spec_parse_state(s@.skip(i as int)) is None,
        },
{
    match parse_string(s, i) {
        Some((name, j)) => {
            if str_eq(name.as_str(), "Idle") {
                Some((WorkerState::Idle, j))
            } else if str_eq(name.as_str(), "Busy") {
                Some((WorkerState::Busy, j))
            } else {
                None
            }
        },
        None => None,
    }
}

pub fn parse_opt_str_at(s: &Vec<char>, i: usize) -> (r: Option<(Option<String>, usize)>)
    requires
        i <= s.len(),
    ensures
        match r {
            Some((o, j)) => i < j <= s.len() && spec_parse_opt_str(s@.skip(i as int)) == Some(
                (view_opt_string(o), s@.skip(j as int)),
            ),
            None => spec_parse_opt_str(s@.skip(i as int)) is None,
        },
{
    let ghost suf = s@.skip(i as int);
    if i < s.len() && s[i] == 'n' {
        proof {
            assert(suf[0] == 'n');
        }
        match expect_lit(s, i, "null") {
            Some(j) => {
                proof {
                    reveal_strlit("null");
                }
                if j == i {
                    proof {
                        assert(("null"@).len() != 0);
                        assert(suf.skip(("null"@).len() as int) == s@.skip(j as int));
                        assert(false);
                    }
                }
                Some((None, j))
            },
            None => None,
        }
    } else {
        proof {
            if i < s.len() {
                assert(suf[0] == s@[i as int]);
            }
        }
        match parse_string(s, i) {
            Some((v, j)) => Some((Some(v), j)),
            None => None,
        }
    }
}

pub fn parse_elapsed_at(s: &Vec<char>, i: usize) -> (r: Option<(ElapsedTime, usize)>)
    requires
        i <= s.len(),
    ensures
        match r {
            Some((e, j)) => i <= j <= s.len() && spec_parse_elapsed(s@.skip(i as int)) == Some(
                (e, s@.skip(j as int)),
            ),
            None => spec_parse_elapsed(s@.skip(i as int)) is None,
        },
{
    match expect_lit(s, i, "{\"secs\":") {
        Some(j1) => match parse_u64(s, j1) {
            Some((secs, j2)) => match expect_lit(s, j2, ",\"nanos\":") {
                Some(j3) => match parse_u32_at(s, j3) {
                    Some((nanos, j4)) => match expect_lit(s, j4, "}") {
                        Some(j5) => Some((ElapsedTime { secs, nanos }, j5)),
                        None => None,
                    },
                    None => None,
                },
                None => None,
            },
            None => None,
        },
        None => None,
    }
}

/// Parse a run of decimal digits as a `u32`.
pub fn parse_u32_at(s: &Vec<char>, i: usize) -> (r: Option<(u32, usize)>)
    requires
        i <= s.len(),
    ensures
        match r {
            Some((v, j)) => i < j <= s.len() && spec_parse_u32(s@.skip(i as int)) == Some(
                (v, s@.skip(j as int)),
            ),
            None => spec_parse_u32(s@.skip(i as int)) is None,
        },
{
    match parse_u64(s, i) {
        Some((v, j)) => {
            if v <= u32::MAX as u64 {
                Some((v as u32, j))
            } else {
                None
            }
        },
        None => None,
    }
}

pub fn parse_opt_elapsed_at(s: &Vec<char>, i: usize) -> (r: Option<(Option<ElapsedTime>, usize)>)
    requires
        i <= s.len(),
    ensures
        match r {
            Some((o, j)) => i <= j <= s.len() && spec_parse_opt_elapsed(s@.skip(i as int))
                == Some((o, s@.skip(j as int))),
            None => spec_parse_opt_elapsed(s@.skip(i as int)) is None,
        },
{
    let ghost suf = s@.skip(i as int);
    if i < s.len() && s[i] == 'n' {
        proof {
            assert(suf[0] == 'n');
        }
        match expect_lit(s, i, "null") {
            Some(j) => Some((None, j)),
            None => None,
        }
    } else {
        proof {
            if i < s.len() {
                assert(suf[0] == s@[i as int]);
            }
        }
        match parse_elapsed_at(s, i) {
            Some((e, j)) => Some((Some(e), j)),
            None => None,
        }
    }
}

/// Skip a fractional part at `i`, if one stands there.
pub fn skip_frac_at(s: &Vec<char>, i: usize) -> (j: usize)
    requires
        i <= s.len(),
    ensures
        i <= j <= s.len(),
        s@.skip(j as int) == spec_skip_frac(s@.skip(i as int)),
{
    let ghost suf = s@.skip(i as int);
    if i < s.len() && i + 1 < s.len() && s[i] == '.' && is_digit_exec(s[i + 1]) {
        proof {
            assert(suf[0] == '.');
            assert(suf[1] == s@[i + 1]);
            lemma_digits_end(s@, i + 1);
        }
        let ghost end = digits_end(s@, i + 1);
        let mut k: usize = i + 1;
        while k < s.len() && is_digit_exec(s[k])
            invariant
                i + 1 <= k <= s.len(),
                k <= end <= s.len(),
                end == digits_end(s@, i + 1),
                forall|m: int| i + 1 <= m < end ==> is_digit(#[trigger] s@[m]),
                end < s@.len() ==> !is_digit(s@[end]),
            decreases s.len() - k,
        {
            k = k + 1;
        }
        proof {
            lemma_digits_end_is(s@, i + 1, k as int);
            let sub = suf.skip(1);
            assert(sub =~= s@.skip(i + 1));
            assert forall|m: int| 0 <= m < k - i - 1 implies is_digit(#[trigger] sub[m]) by {
                assert(sub[m] == s@[i + 1 + m]);
            }
            if k < s.len() {
                assert(sub[k - i - 1] == s@[k as int]);
            }
            lemma_digits_end_is(sub, 0, k - i - 1);
            assert(sub.skip(k - i - 1) =~= s@.skip(k as int));
        }
        k
    } else {
        proof {
            if i < s.len() {
                assert(suf[0] == s@[i as int]);
            }
            if i + 1 < s.len() {
                assert(suf[1] == s@[i + 1]);
            }
            assert(spec_skip_frac(suf) == suf);
        }
        i
    }
}

pub fn parse_field_u64_at(s: &Vec<char>, i: usize, lit: &str) -> (r: Option<(u64, usize)>)
    requires
        i <= s.len(),
    ensures
        match r {
            Some((v, j)) => i <= j <= s.len() && spec_parse_field_u64(s@.skip(i as int), lit@)
                == Some((v, s@.skip(j as int))),
            None => spec_parse_field_u64(s@.skip(i as int), lit@) is None,
        },
{
    match expect_lit(s, i, lit) {
        Some(j1) => parse_u64(s, j1),
        None => None,
    }
}

pub fn parse_field_u32_at(s: &Vec<char>, i: usize, lit: &str) -> (r: Option<(u32, usize)>)
    requires
        i <= s.len(),
    ensures
        match r {
            Some((v, j)) => i <= j <= s.len() && spec_parse_field_u32(s@.skip(i as int), lit@)
                == Some((v, s@.skip(j as int))),
            None => spec_parse_field_u32(s@.skip(i as int), lit@) is None,
        },
{
    match expect_lit(s, i, lit) {
        Some(j1) => parse_u32_at(s, j1),
        None => None,
    }
}

pub fn parse_field_ms_at(s: &Vec<char>, i: usize, lit: &str) -> (r: Option<(u64, usize)>)
    requires
        i <= s.len(),
    ensures
        match r {
            Some((v, j)) => i <= j <= s.len() && spec_parse_field_ms(s@.skip(i as int), lit@)
                == Some((v, s@.skip(j as int))),
            None => spec_parse_field_ms(s@.skip(i as int), lit@) is None,
        },
{
    match expect_lit(s, i, lit) {
        Some(j1) => match parse_u64(s, j1) {
            Some((v, j2)) => {
                let j3 = skip_frac_at(s, j2);
                Some((v, j3))
            },
            None => None,
        },
        None => None,
    }
}


// ---------------------------------------------------------------------
// Views of header and request vectors
// ---------------------------------------------------------------------

pub open spec fn headers_view(hs: Seq<(String, String)>) -> Seq<(Seq<char>, Seq<char>)> {
    Seq::new(hs.len(), |i: int| (hs[i].0@, hs[i].1@))
}

pub open spec fn reqs_view(rs: Seq<RequestSpec>) -> Seq<RequestSpecV> {
    Seq::new(rs.len(), |i: int| rs[i]@)
}

// ---------------------------------------------------------------------
// Executable header codec
// ---------------------------------------------------------------------

proof fn lemma_enc_headers_items_snoc(t: Seq<(Seq<char>, Seq<char>)>, x: (Seq<char>, Seq<char>))
    ensures
        spec_enc_headers_items(t.push(x)) == if t.len() == 0 {
            spec_enc_header(x)
        } else {
            spec_enc_headers_items(t) + ","@ + spec_enc_header(x)
        },
    decreases t.len(),
{
    let p = t.push(x);
    if t.len() == 0 {
        assert(p[0] == x);
        assert(spec_enc_headers_items(p) == spec_enc_header(x));
    } else if t.len() == 1 {
        assert(p[0] == t[0]);
        assert(p.drop_first() =~= seq![x]);
        assert(spec_enc_headers_items(seq![x]) == spec_enc_header(x));
        assert(spec_enc_headers_items(p) == spec_enc_header(t[0]) + ","@ + spec_enc_header(x));
        assert(spec_enc_headers_items(t) == spec_enc_header(t[0]));
    } else {
        lemma_enc_headers_items_snoc(t.drop_first(), x);
        assert(p[0] == t[0]);
        assert(p.drop_first() =~= t.drop_first().push(x));
        assert(spec_enc_headers_items(p) == spec_enc_header(t[0]) + ","@ + (
        spec_enc_headers_items(t.drop_first()) + ","@ + spec_enc_header(x)));
        assert(spec_enc_headers_items(t) == spec_enc_header(t[0]) + ","@
            + spec_enc_headers_items(t.drop_first()));
        assert(spec_enc_headers_items(p) =~= spec_enc_headers_items(t) + ","@ + spec_enc_header(
            x,
        ));
    }
}

pub fn push_headers(out: &mut Vec<char>, hs: &Vec<(String, String)>)
    ensures
        final(out)@ == old(out)@ + spec_enc_headers(headers_view(hs@)),
{
    push_lit(out, "{");
    let ghost hv = headers_view(hs@);
    let mut i: usize = 0;
    while i < hs.len()
        invariant
            i <= hs.len(),
            hv == headers_view(hs@),
            out@ == old(out)@ + "{"@ + spec_enc_headers_items(hv.take(i as int)),
        decreases hs.len() - i,
    {
        if i > 0 {
            push_lit(out, ",");
        }
        push_string(out, hs[i].0.as_str());
        push_lit(out, ":");
        push_string(out, hs[i].1.as_str());
        proof {
            lemma_enc_headers_items_snoc(hv.take(i as int), hv[i as int]);
            assert(hv.take(i + 1) =~= hv.take(i as int).push(hv[i as int]));
            assert(out@ =~= old(out)@ + "{"@ + spec_enc_headers_items(hv.take(i + 1)));
        }
        i = i + 1;
    }
    push_lit(out, "}");
    proof {
        assert(hv.take(hs@.len() as int) =~= hv);
        assert(out@ =~= old(out)@ + spec_enc_headers(hv));
    }
}

pub fn parse_headers_items_at(s: &Vec<char>, i: usize) -> (r: Option<
    (Vec<(String, String)>, usize),
>)
    requires
        i <= s.len(),
    ensures
        match r {
            Some((v, j)) => i < j <= s.len() && spec_parse_headers_items(s@.skip(i as int))
                == Some((headers_view(v@), s@.skip(j as int))),
            None => spec_parse_headers_items(s@.skip(i as int)) is None,
        },
    decreases s.len() - i,
{
    match parse_string(s, i) {
        Some((k, j1)) => match expect_lit(s, j1, ":") {
            Some(j2) => match parse_string(s, j2) {
                Some((v, j3)) => {
                    let ghost s3 = s@.skip(j3 as int);
                    if j3 < s.len() && s[j3] == ',' {
                        proof {
                            assert(s3[0] == ',');
                            assert(s3.skip(1) =~= s@.skip(j3 + 1));
                        }
                        match parse_headers_items_at(s, j3 + 1) {
                            Some((mut t, j4)) => {
                                let ghost t0 = t@;
                                t.insert(0, (k, v));
                                proof {
                                    assert(headers_view(t@) =~= seq![(k@, v@)] + headers_view(
                                        t0,
                                    ));
                                }
                                Some((t, j4))
                            },
                            None => None,
                        }
                    } else if j3 < s.len() && s[j3] == '}' {
                        proof {
                            assert(s3[0] == '}');
                            assert(s3.skip(1) =~= s@.skip(j3 + 1));
                        }
                        let mut t: Vec<(String, String)> = Vec::new();
                        t.push((k, v));
                        proof {
                            assert(headers_view(t@) =~= seq![(k@, v@)]);
                        }
                        Some((t, j3 + 1))
                    } else {
                        proof {
                            if j3 < s.len() {
                                assert(s3[0] == s@[j3 as int]);
                            }
                        }
                        None
                    }
                },
                None => None,
            },
            None => None,
        },
        None => None,
    }
}

pub fn parse_headers_at(s: &Vec<char>, i: usize) -> (r: Option<(Vec<(String, String)>, usize)>)
    requires
        i <= s.len(),
    ensures
        match r {
            Some((v, j)) => i < j <= s.len() && spec_parse_headers(s@.skip(i as int)) == Some(
                (headers_view(v@), s@.skip(j as int)),
            ),
            None => spec_parse_headers(s@.skip(i as int)) is None,
        },
{
    match expect_lit(s, i, "{") {
        Some(j1) => {
            proof {
                reveal_strlit("{");
                if j1 == i {
                    assert(("{"@).len() != 0);
                    assert(s@.skip(i as int).skip(("{"@).len() as int) == s@.skip(j1 as int));
                    assert(false);
                }
            }
            let ghost s1 = s@.skip(j1 as int);
            if j1 < s.len() && s[j1] == '}' {
                proof {
                    assert(s1[0] == '}');
                    assert(s1.skip(1) =~= s@.skip(j1 + 1));
                    assert(headers_view(Seq::<(String, String)>::empty()) =~= Seq::<
                        (Seq<char>, Seq<char>),
                    >::empty());
                }
                let t: Vec<(String, String)> = Vec::new();
                Some((t, j1 + 1))
            } else {
                proof {
                    if j1 < s.len() {
                        assert(s1[0] == s@[j1 as int]);
                    }
                }
                parse_headers_items_at(s, j1)
            }
        },
        None => None,
    }
}

// ---------------------------------------------------------------------
// Executable request codec
// ---------------------------------------------------------------------

pub fn encode_request(out: &mut Vec<char>, r: &RequestSpec)
    ensures
        final(out)@ == old(out)@ + spec_enc_request(r@),
{
    push_lit(out, "{\"version\":");
    push_version(out, r.version);
    push_lit(out, ",\"method\":");
    push_method(out, r.method);
    push_lit(out, ",\"url\":");
    push_string(out, r.url.as_str());
    push_lit(out, ",\"body\":");
    push_opt_str(out, &r.body);
    push_lit(out, ",\"headers\":");
    push_headers(out, &r.headers);
    push_lit(out, ",\"random_querystring\":");
    push_opt_str(out, &r.random_querystring);
    push_lit(out, ",\"random_header\":");
    push_opt_str(out, &r.random_header);
    push_lit(out, "}");
    proof {
        reveal(spec_enc_request);
        lemma_shift(old(out)@, "{\"version\":"@, spec_enc_version(r@.version));
        lemma_shift(old(out)@, "{\"version\":"@ + spec_enc_version(r@.version), ",\"method\":"@);
        lemma_shift(old(out)@, "{\"version\":"@ + spec_enc_version(r@.version) + ",\"method\":"@, spec_enc_method(r@.method));
        lemma_shift(old(out)@, "{\"version\":"@ + spec_enc_version(r@.version) + ",\"method\":"@ + spec_enc_method(r@.method), ",\"url\":"@);
        lemma_shift(old(out)@, "{\"version\":"@ + spec_enc_version(r@.version) + ",\"method\":"@ + spec_enc_method(r@.method) + ",\"url\":"@, spec_enc_str(r@.url));
        lemma_shift(old(out)@, "{\"version\":"@ + spec_enc_version(r@.version) + ",\"method\":"@ + spec_enc_method(r@.method) + ",\"url\":"@ + spec_enc_str(r@.url), ",\"body\":"@);
        lemma_shift(old(out)@, "{\"version\":"@ + spec_enc_version(r@.version) + ",\"method\":"@ + spec_enc_method(r@.method) + ",\"url\":"@ + spec_enc_str(r@.url) + ",\"body\":"@, spec_enc_opt_str(r@.body));
        lemma_shift(old(out)@, "{\"version\":"@ + spec_enc_version(r@.version) + ",\"method\":"@ + spec_enc_method(r@.method) + ",\"url\":"@ + spec_enc_str(r@.url) + ",\"body\":"@ + spec_enc_opt_str(r@.body), ",\"headers\":"@);
        lemma_shift(old(out)@, "{\"version\":"@ + spec_enc_version(r@.version) + ",\"method\":"@ + spec_enc_method(r@.method) + ",\"url\":"@ + spec_enc_str(r@.url) + ",\"body\":"@ + spec_enc_opt_str(r@.body) + ",\"headers\":"@, spec_enc_headers(r@.headers));
        lemma_shift(old(out)@, "{\"version\":"@ + spec_enc_version(r@.version) + ",\"method\":"@ + spec_enc_method(r@.method) + ",\"url\":"@ + spec_enc_str(r@.url) + ",\"body\":"@ + spec_enc_opt_str(r@.body) + ",\"headers\":"@ + spec_enc_headers(r@.headers), ",\"random_querystring\":"@);
        lemma_shift(old(out)@, "{\"version\":"@ + spec_enc_version(r@.version) + ",\"method\":"@ + spec_enc_method(r@.method) + ",\"url\":"@ + spec_enc_str(r@.url) + ",\"body\":"@ + spec_enc_opt_str(r@.body) + ",\"headers\":"@ + spec_enc_headers(r@.headers) + ",\"random_querystring\":"@, spec_enc_opt_str(r@.random_querystring));
        lemma_shift(old(out)@, "{\"version\":"@ + spec_enc_version(r@.version) + ",\"method\":"@ + spec_enc_method(r@.method) + ",\"url\":"@ + spec_enc_str(r@.url) + ",\"body\":"@ + spec_enc_opt_str(r@.body) + ",\"headers\":"@ + spec_enc_headers(r@.headers) + ",\"random_querystring\":"@ + spec_enc_opt_str(r@.random_querystring), ",\"random_header\":"@);
        lemma_shift(old(out)@, "{\"version\":"@ + spec_enc_version(r@.version) + ",\"method\":"@ + spec_enc_method(r@.method) + ",\"url\":"@ + spec_enc_str(r@.url) + ",\"body\":"@ + spec_enc_opt_str(r@.body) + ",\"headers\":"@ + spec_enc_headers(r@.headers) + ",\"random_querystring\":"@ + spec_enc_opt_str(r@.random_querystring) + ",\"random_header\":"@, spec_enc_opt_str(r@.random_header));
        lemma_shift(old(out)@, "{\"version\":"@ + spec_enc_version(r@.version) + ",\"method\":"@ + spec_enc_method(r@.method) + ",\"url\":"@ + spec_enc_str(r@.url) + ",\"body\":"@ + spec_enc_opt_str(r@.body) + ",\"headers\":"@ + spec_enc_headers(r@.headers) + ",\"random_querystring\":"@ + spec_enc_opt_str(r@.random_querystring) + ",\"random_header\":"@ + spec_enc_opt_str(r@.random_header), "}"@);
        assert(out@ == old(out)@ + spec_enc_request(r@));
    }
}

#[verifier::rlimit(50)]
pub fn parse_request_at(s: &Vec<char>, i: usize) -> (r: Option<(RequestSpec, usize)>)
    requires
        i <= s.len(),
    ensures
        match r {
            Some((rq, j)) => i <= j <= s.len() && spec_parse_request(s@.skip(i as int)) == Some(
                (rq@, s@.skip(j as int)),
            ),
            None => spec_parse_request(s@.skip(i as int)) is None,
        },
{
    proof {
        reveal(spec_parse_request);
    }
    match expect_lit(s, i, "{\"version\":") {
        Some(j1) => match parse_version_at(s, j1) {
            Some((version, j2)) => match expect_lit(s, j2, ",\"method\":") {
                Some(j3) => match parse_method_at(s, j3) {
                    Some((method, j4)) => match expect_lit(s, j4, ",\"url\":") {
                        Some(j5) => match parse_string(s, j5) {
                            Some((url, j6)) => match expect_lit(s, j6, ",\"body\":") {
                                Some(j7) => match parse_opt_str_at(s, j7) {
                                    Some((body, j8)) => match expect_lit(s, j8, ",\"headers\":") {
                                        Some(j9) => match parse_headers_at(s, j9) {
                                            Some((headers, j10)) => match expect_lit(
                                                s,
                                                j10,
                                                ",\"random_querystring\":",
                                            ) {
                                                Some(j11) => match parse_opt_str_at(s, j11) {
                                                    Some((rq0, j12)) => match expect_lit(
                                                        s,
                                                        j12,
                                                        ",\"random_header\":",
                                                    ) {
                                                        Some(j13) => match parse_opt_str_at(
                                                            s,
                                                            j13,
                                                        ) {
                                                            Some((rh, j14)) => match expect_lit(
                                                                s,
                                                                j14,
                                                                "}",
                                                            ) {
                                                                Some(j15) => {
                                                                    let out = RequestSpec {
                                                                        version,
                                                                        method,
                                                                        url,
                                                                        body,
                                                                        headers,
                                                                        random_querystring: rq0,
                                                                        random_header: rh,
                                                                    };
                                                                    Some((out, j15))
                                                                },
                                                                None => None,
                                                            },
                                                            None => None,
                                                        },
                                                        None => None,
                                                    },
                                                    None => None,
                                                },
                                                None => None,
                                            },
                                            None => None,
                                        },
                                        None => None,
                                    },
                                    None => None,
                                },
                                None => None,
                            },
                            None => None,
                        },
                        None => None,
                    },
                    None => None,
                },
                None => None,
            },
            None => None,
        },
        None => None,
    }
}


// ---------------------------------------------------------------------
// Executable request-list codec
// ---------------------------------------------------------------------

proof fn lemma_enc_req_items_snoc(t: Seq<RequestSpecV>, x: RequestSpecV)
    ensures
        spec_enc_req_items(t.push(x)) == if t.len() == 0 {
            spec_enc_request(x)
        } else {
            spec_enc_req_items(t) + ","@ + spec_enc_request(x)
        },
    decreases t.len(),
{
    let p = t.push(x);
    if t.len() == 0 {
        assert(p[0] == x);
        assert(spec_enc_req_items(p) == spec_enc_request(x));
    } else if t.len() == 1 {
        assert(p[0] == t[0]);
        assert(p.drop_first() =~= seq![x]);
        assert(spec_enc_req_items(seq![x]) == spec_enc_request(x));
        assert(spec_enc_req_items(p) == spec_enc_request(t[0]) + ","@ + spec_enc_request(x));
        assert(spec_enc_req_items(t) == spec_enc_request(t[0]));
    } else {
        lemma_enc_req_items_snoc(t.drop_first(), x);
        assert(p[0] == t[0]);
        assert(p.drop_first() =~= t.drop_first().push(x));
        assert(spec_enc_req_items(p) == spec_enc_request(t[0]) + ","@ + (spec_enc_req_items(
            t.drop_first(),
        ) + ","@ + spec_enc_request(x)));
        assert(spec_enc_req_items(t) == spec_enc_request(t[0]) + ","@ + spec_enc_req_items(
            t.drop_first(),
        ));
        assert(spec_enc_req_items(p) =~= spec_enc_req_items(t) + ","@ + spec_enc_request(x));
    }
}

pub fn push_req_list(out: &mut Vec<char>, rs: &Vec<RequestSpec>)
    ensures
        final(out)@ == old(out)@ + spec_enc_req_list(reqs_view(rs@)),
{
    push_lit(out, "[");
    let ghost rv = reqs_view(rs@);
    let mut i: usize = 0;
    while i < rs.len()
        invariant
            i <= rs.len(),
            rv == reqs_view(rs@),
            out@ == old(out)@ + "["@ + spec_enc_req_items(rv.take(i as int)),
        decreases rs.len() - i,
    {
        if i > 0 {
            push_lit(out, ",");
        }
        encode_request(out, &rs[i]);
        proof {
            lemma_enc_req_items_snoc(rv.take(i as int), rv[i as int]);
            assert(rv.take(i + 1) =~= rv.take(i as int).push(rv[i as int]));
            assert(out@ =~= old(out)@ + "["@ + spec_enc_req_items(rv.take(i + 1)));
        }
        i = i + 1;
    }
    push_lit(out, "]");
    proof {
        assert(rv.take(rs@.len() as int) =~= rv);
        assert(out@ =~= old(out)@ + spec_enc_req_list(rv));
    }
}

pub fn parse_req_items_at(s: &Vec<char>, i: usize) -> (r: Option<(Vec<RequestSpec>, usize)>)
    requires
        i <= s.len(),
    ensures
        match r {
            Some((v, j)) => i < j <= s.len() && spec_parse_req_items(s@.skip(i as int)) == Some(
                (reqs_view(v@), s@.skip(j as int)),
            ),
            None => spec_parse_req_items(s@.skip(i as int)) is None,
        },
    decreases s.len() - i,
{
    match parse_request_at(s, i) {
        Some((rq, j1)) => {
            proof {
                if j1 == i {
                    lemma_request_shortens(s@.skip(i as int));
                    assert(false);
                }
            }
            let ghost s1 = s@.skip(j1 as int);
            if j1 < s.len() && s[j1] == ',' {
                proof {
                    assert(s1[0] == ',');
                    assert(s1.skip(1) =~= s@.skip(j1 + 1));
                }
                match parse_req_items_at(s, j1 + 1) {
                    Some((mut t, j2)) => {
                        let ghost t0 = t@;
                        t.insert(0, rq);
                        proof {
                            assert(reqs_view(t@) =~= seq![t@[0]@] + reqs_view(t0));
                        }
                        Some((t, j2))
                    },
                    None => None,
                }
            } else if j1 < s.len() && s[j1] == ']' {
                proof {
                    assert(s1[0] == ']');
                    assert(s1.skip(1) =~= s@.skip(j1 + 1));
                }
                let mut t: Vec<RequestSpec> = Vec::new();
                t.push(rq);
                proof {
                    assert(reqs_view(t@) =~= seq![t@[0]@]);
                }
                Some((t, j1 + 1))
            } else {
                proof {
                    if j1 < s.len() {
                        assert(s1[0] == s@[j1 as int]);
                    }
                }
                None
            }
        },
        None => None,
    }
}

pub fn parse_req_list_at(s: &Vec<char>, i: usize) -> (r: Option<(Vec<RequestSpec>, usize)>)
    requires
        i <= s.len(),
    ensures
        match r {
            Some((v, j)) => i < j <= s.len() && spec_parse_req_list(s@.skip(i as int)) == Some(
                (reqs_view(v@), s@.skip(j as int)),
            ),
            None => spec_parse_req_list(s@.skip(i as int)) is None,
        },
{
    match expect_lit(s, i, "[") {
        Some(j1) => {
            proof {
                reveal_strlit("[");
                if j1 == i {
                    assert(("["@).len() != 0);
                    assert(s@.skip(i as int).skip(("["@).len() as int) == s@.skip(j1 as int));
                    assert(false);
                }
            }
            let ghost s1 = s@.skip(j1 as int);
            if j1 < s.len() && s[j1] == ']' {
                proof {
                    assert(s1[0] == ']');
                    assert(s1.skip(1) =~= s@.skip(j1 + 1));
                    assert(reqs_view(Seq::<RequestSpec>::empty()) =~= Seq::<RequestSpecV>::empty());
                }
                let t: Vec<RequestSpec> = Vec::new();
                Some((t, j1 + 1))
            } else {
                proof {
                    if j1 < s.len() {
                        assert(s1[0] == s@[j1 as int]);
                    }
                }
                parse_req_items_at(s, j1)
            }
        },
        None => None,
    }
}

// ---------------------------------------------------------------------
// The command codec and public command API
// ---------------------------------------------------------------------

/// One frame of the session transport, as the library sees it.  The
/// payloads of ping, pong and binary frames are opaque bytes.
#[derive(Clone, Debug)]
pub enum Frame {
    Ping(Vec<u8>),
    Pong(Vec<u8>),
    Text(String),
    Binary(Vec<u8>),
    Close,
}

impl Command {
    pub fn start(requests: Vec<RequestSpec>, strategy: AttackStrategy, max_concurrency: u32) -> (c:
        Command)
        ensures
            c@ == (CommandV::Start { requests: reqs_view(requests@), strategy, max_concurrency }),
    {
        Command::Start { requests, strategy, max_concurrency }
    }

    pub fn stop() -> (c: Command)
        ensures
            c@ == CommandV::Stop,
    {
        Command::Stop
    }

    pub fn reset() -> (c: Command)
        ensures
            c@ == CommandV::Reset,
    {
        Command::Reset
    }

    /// The JSON text of this command.
    pub fn to_text(&self) -> (t: String)
        ensures
            t@ == spec_enc_command(self@),
    {
        let mut out: Vec<char> = Vec::new();
        match self {
            Command::Stop => {
                push_string(&mut out, "Stop");
            },
            Command::Reset => {
                push_string(&mut out, "Reset");
            },
            Command::Start { requests, strategy, max_concurrency } => {
                push_lit(&mut out, "{\"Start\":{\"requests\":");
                push_req_list(&mut out, requests);
                push_lit(&mut out, ",\"strategy\":");
                push_strategy(&mut out, *strategy);
                push_lit(&mut out, ",\"max_concurrency\":");
                push_u64(&mut out, *max_concurrency as u64);
                push_lit(&mut out, "}}");
                proof {
                    assert(out@ =~= spec_enc_command(self@));
                }
            },
        }
        proof {
            assert(out@ =~= spec_enc_command(self@));
        }
        crate::json::chars_to_string(&out)
    }

    /// This command as a text frame of the session transport.
    pub fn as_message(&self) -> (m: Frame)
        ensures
            m matches Frame::Text(t) && t@ == spec_enc_command(self@),
    {
        Frame::Text(self.to_text())
    }

    /// Parse the JSON text of a command; the whole input must be one
    /// command.
    pub fn parse_text(s: &str) -> (r: Option<Command>)
        ensures
            match r {
                Some(c) => spec_parse_command(s@) matches Some((cv, rest)) && cv == c@
                    && rest.len() == 0,
                None => !(spec_parse_command(s@) matches Some((cv, rest)) && rest.len() == 0),
            },
    {
        let chars = crate::json::str_to_chars(s);
        proof {
            assert(chars@.skip(0) =~= s@);
        }
        match Command::parse_at(&chars, 0) {
            Some((c, j)) => {
                if j == chars.len() {
                    proof {
                        assert(s@.skip(j as int).len() == 0);
                    }
                    Some(c)
                } else {
                    proof {
                        assert(s@.skip(j as int).len() != 0);
                    }
                    None
                }
            },
            None => None,
        }
    }

    /// Parse one command starting at `i`.
    pub fn parse_at(s: &Vec<char>, i: usize) -> (r: Option<(Command, usize)>)
        requires
            i <= s.len(),
        ensures
            match r {
                Some((c, j)) => i <= j <= s.len() && spec_parse_command(s@.skip(i as int))
                    == Some((c@, s@.skip(j as int))),
                None => spec_parse_command(s@.skip(i as int)) is None,
            },
    {
        let ghost suf = s@.skip(i as int);
        if i < s.len() && s[i] == '{' {
            proof {
                assert(suf[0] == '{');
            }
            match expect_lit(s, i, "{\"Start\":{\"requests\":") {
                Some(j1) => match parse_req_list_at(s, j1) {
                    Some((requests, j2)) => match expect_lit(s, j2, ",\"strategy\":") {
                        Some(j3) => match parse_strategy_at(s, j3) {
                            Some((strategy, j4)) => match parse_field_u32_at(
                                s,
                                j4,
                                ",\"max_concurrency\":",
                            ) {
                                Some((max_concurrency, j5)) => match expect_lit(s, j5, "}}") {
                                    Some(j6) => Some(
                                        (
                                            Command::Start {
                                                requests,
                                                strategy,
                                                max_concurrency,
                                            },
                                            j6,
                                        ),
                                    ),
                                    None => None,
                                },
                                None => None,
                            },
                            None => None,
                        },
                        None => None,
                    },
                    None => None,
                },
                None => None,
            }
        } else {
            proof {
                if i < s.len() {
                    assert(suf[0] == s@[i as int]);
                }
            }
            match parse_string(s, i) {
                Some((name, j)) => {
                    if str_eq(name.as_str(), "Stop") {
                        Some((Command::Stop, j))
                    } else if str_eq(name.as_str(), "Reset") {
                        Some((Command::Reset, j))
                    } else {
                        None
                    }
                },
                None => None,
            }
        }
    }
}


// ---------------------------------------------------------------------
// The status codec and public status API
// ---------------------------------------------------------------------

impl Status {
    /// The JSON text of this snapshot.
    #[verifier::rlimit(100)]
    pub fn to_text(&self) -> (t: String)
        ensures
            t@ == spec_enc_status(self@),
    {
        let mut out: Vec<char> = Vec::new();
        push_lit(&mut out, "{\"hostname\":");
        push_opt_str(&mut out, &self.hostname);
        push_lit(&mut out, ",\"socket\":");
        push_opt_str(&mut out, &self.socket);
        push_lit(&mut out, ",\"state\":");
        push_state(&mut out, self.state);
        push_lit(&mut out, ",\"elapsed\":");
        push_opt_elapsed(&mut out, &self.elapsed);
        push_lit(&mut out, ",\"tasks\":");
        push_u64(&mut out, self.tasks as u64);
        push_lit(&mut out, ",\"task_queue\":");
        push_u64(&mut out, self.task_queue as u64);
        push_lit(&mut out, ",\"tasks_max\":");
        push_u64(&mut out, self.tasks_max as u64);
        push_lit(&mut out, ",\"min\":");
        push_u64(&mut out, self.min);
        push_lit(&mut out, ",\"max\":");
        push_u64(&mut out, self.max);
        push_lit(&mut out, ",\"mean\":");
        push_u64(&mut out, self.mean);
        push_lit(&mut out, ",\"stdev\":");
        push_u64(&mut out, self.stdev);
        push_lit(&mut out, ",\"median\":");
        push_u64(&mut out, self.median);
        push_lit(&mut out, ",\"p90\":");
        push_u64(&mut out, self.p90);
        push_lit(&mut out, ",\"count\":");
        push_u64(&mut out, self.count as u64);
        push_lit(&mut out, ",\"count_1xx\":");
        push_u64(&mut out, self.count_1xx as u64);
        push_lit(&mut out, ",\"count_2xx\":");
        push_u64(&mut out, self.count_2xx as u64);
        push_lit(&mut out, ",\"count_3xx\":");
        push_u64(&mut out, self.count_3xx as u64);
        push_lit(&mut out, ",\"count_4xx\":");
        push_u64(&mut out, self.count_4xx as u64);
        push_lit(&mut out, ",\"count_5xx\":");
        push_u64(&mut out, self.count_5xx as u64);
        push_lit(&mut out, ",\"count_fail\":");
        push_u64(&mut out, self.count_fail as u64);
        push_lit(&mut out, "}");
        proof {
            assert(out@ =~= spec_enc_status(self@));
        }
        crate::json::chars_to_string(&out)
    }

    /// This snapshot as a text frame of the session transport.
    pub fn as_message(&self) -> (m: Frame)
        ensures
            m matches Frame::Text(t) && t@ == spec_enc_status(self@),
    {
        Frame::Text(self.to_text())
    }

    /// Parse one status snapshot starting at `i`.
    #[verifier::rlimit(100)]
    pub fn parse_at(s: &Vec<char>, i: usize) -> (r: Option<(Status, usize)>)
        requires
            i <= s.len(),
        ensures
            match r {
                Some((st, j)) => i <= j <= s.len() && spec_parse_status(s@.skip(i as int))
                    == Some((st@, s@.skip(j as int))),
                None => spec_parse_status(s@.skip(i as int)) is None,
            },
    {
        match expect_lit(s, i, "{\"hostname\":") {
            Some(j1) => match parse_opt_str_at(s, j1) {
                Some((hostname, j2)) => match expect_lit(s, j2, ",\"socket\":") {
                    Some(j3) => match parse_opt_str_at(s, j3) {
                        Some((socket, j4)) => match expect_lit(s, j4, ",\"state\":") {
                            Some(j5) => match parse_state_at(s, j5) {
                                Some((state, j6)) => match expect_lit(s, j6, ",\"elapsed\":") {
                                    Some(j7) => match parse_opt_elapsed_at(s, j7) {
                                        Some((elapsed, j8)) =>
        match parse_field_u32_at(s, j8, ",\"tasks\":") {
        Some((tasks, j9)) =>
        match parse_field_u32_at(s, j9, ",\"task_queue\":") {
        Some((task_queue, j10)) =>
        match parse_field_u32_at(s, j10, ",\"tasks_max\":") {
        Some((tasks_max, j11)) =>
        match parse_field_u64_at(s, j11, ",\"min\":") {
        Some((min, j12)) =>
        match parse_field_u64_at(s, j12, ",\"max\":") {
        Some((max, j13)) =>
        match parse_field_ms_at(s, j13, ",\"mean\":") {
        Some((mean, j14)) =>
        match parse_field_ms_at(s, j14, ",\"stdev\":") {
        Some((stdev, j15)) =>
        match parse_field_u64_at(s, j15, ",\"median\":") {
        Some((median, j16)) =>
        match parse_field_u64_at(s, j16, ",\"p90\":") {
        Some((p90, j17)) =>
        match parse_field_u32_at(s, j17, ",\"count\":") {
        Some((count, j18)) =>
        match parse_field_u32_at(s, j18, ",\"count_1xx\":") {
        Some((count_1xx, j19)) =>
        match parse_field_u32_at(s, j19, ",\"count_2xx\":") {
        Some((count_2xx, j20)) =>
        match parse_field_u32_at(s, j20, ",\"count_3xx\":") {
        Some((count_3xx, j21)) =>
        match parse_field_u32_at(s, j21, ",\"count_4xx\":") {
        Some((count_4xx, j22)) =>
        match parse_field_u32_at(s, j22, ",\"count_5xx\":") {
        Some((count_5xx, j23)) =>
        match parse_field_u32_at(s, j23, ",\"count_fail\":") {
        Some((count_fail, j24)) =>
        match expect_lit(s, j24, "}") {
        Some(j25) => Some((Status { hostname, socket, state, elapsed, tasks, task_queue, tasks_max, min, max, mean, stdev, median, p90, count, count_1xx, count_2xx, count_3xx, count_4xx, count_5xx, count_fail }, j25)),
        None => None,
        }
        None => None,
        }
        None => None,
        }
        None => None,
        }
        None => None,
        }
        None => None,
        }
        None => None,
        }
        None => None,
        }
        None => None,
        }
        None => None,
        }
        None => None,
        }
        None => None,
        }
        None => None,
        }
        None => None,
        }
        None => None,
        }
        None => None,
        }
        None => None,
        }
                                        None => None,
                                    },
                                    None => None,
                                },
                                None => None,
                            },
                            None => None,
                        },
                        None => None,
                    },
                    None => None,
                },
                None => None,
            },
            None => None,
        }
    }

    /// Parse the JSON text of a status snapshot; the whole input must
    /// be one snapshot.
    pub fn parse_text(s: &str) -> (r: Option<Status>)
        ensures
            match r {
                Some(st) => spec_parse_status(s@) matches Some((sv, rest)) && sv == st@
                    && rest.len() == 0,
                None => !(spec_parse_status(s@) matches Some((sv, rest)) && rest.len() == 0),
            },
    {
        let chars = crate::json::str_to_chars(s);
        proof {
            assert(chars@.skip(0) =~= s@);
        }
        match Status::parse_at(&chars, 0) {
            Some((st, j)) => {
                if j == chars.len() {
                    proof {
                        assert(s@.skip(j as int).len() == 0);
                    }
                    Some(st)
                } else {
                    proof {
                        assert(s@.skip(j as int).len() != 0);
                    }
                    None
                }
            },
            None => None,
        }
    }
}

} // verus!
