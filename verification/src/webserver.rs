//! Projections of the collector's records for the control API, and the
//! operator's start request.  The HTTP routing itself is an external
//! collaborator; what it serves is computed and verified here.
//!
//! Per-class rates are carried as integers, in thousandths of requests
//! per second, derived from the snapshot's counters and elapsed span.
use vstd::prelude::*;

use crate::messages::AttackStrategy;
use crate::messages::Command;
use crate::messages::CommandV;
use crate::messages::ElapsedTime;
use crate::messages::HttpVersion;
use crate::messages::RequestMethod;
use crate::messages::RequestSpec;
use crate::messages::RequestSpecV;
use crate::stats;
use crate::stats::Snapshot;

verus! {

/// The whole milliseconds of an elapsed span.
pub open spec fn elapsed_ms_of(e: ElapsedTime) -> int {
    e.secs * 1000 + e.nanos / 1000000
}

/// A per-class rate in thousandths of requests per second: the count
/// over the elapsed span; zero when no span (or an empty one) is known.
pub open spec fn rate_milli(count: u32, el: Option<ElapsedTime>) -> u64 {
    match el {
        Some(e) => {
            let ms = elapsed_ms_of(e);
            if ms > 0 {
                (count * 1000000 / ms) as u64
            } else {
                0
            }
        },
        None => 0,
    }
}

/// One snapshot as the control API reports it.
#[derive(Clone, Copy, PartialEq, Eq, Structural, Debug)]
pub struct SnapshotResponse {
    pub state: stats::WorkerState,
    /// Elapsed span in whole milliseconds.
    pub elapsed: Option<u128>,
    pub tasks: u32,
    pub task_queue: u32,
    pub tasks_max: u32,
    pub min: u64,
    pub max: u64,
    pub mean: u64,
    pub stdev: u64,
    pub median: u64,
    pub p90: u64,
    pub count: u32,
    pub rate_count: u64,
    pub count_1xx: u32,
    pub rate_1xx: u64,
    pub count_2xx: u32,
    pub rate_2xx: u64,
    pub count_3xx: u32,
    pub rate_3xx: u64,
    pub count_4xx: u32,
    pub rate_4xx: u64,
    pub count_5xx: u32,
    pub rate_5xx: u64,
    pub count_fail: u32,
    pub rate_fail: u64,
}

/// The response a snapshot projects to.
pub open spec fn spec_snapshot_response(s: Snapshot) -> SnapshotResponse {
    SnapshotResponse {
        state: s.state,
        elapsed: match s.elapsed {
            Some(e) => Some(elapsed_ms_of(e) as u128),
            None => None,
        },
        tasks: s.tasks,
        task_queue: s.task_queue,
        tasks_max: s.tasks_max,
        min: s.min,
        max: s.max,
        mean: s.mean,
        stdev: s.stdev,
        median: s.median,
        p90: s.p90,
        count: s.count,
        rate_count: rate_milli(s.count, s.elapsed),
        count_1xx: s.count_1xx,
        rate_1xx: rate_milli(s.count_1xx, s.elapsed),
        count_2xx: s.count_2xx,
        rate_2xx: rate_milli(s.count_2xx, s.elapsed),
        count_3xx: s.count_3xx,
        rate_3xx: rate_milli(s.count_3xx, s.elapsed),
        count_4xx: s.count_4xx,
        rate_4xx: rate_milli(s.count_4xx, s.elapsed),
        count_5xx: s.count_5xx,
        rate_5xx: rate_milli(s.count_5xx, s.elapsed),
        count_fail: s.count_fail,
        rate_fail: rate_milli(s.count_fail, s.elapsed),
    }
}

/// The elapsed span of a snapshot, in whole milliseconds.
fn elapsed_millis(e: &ElapsedTime) -> (r: u128)
    ensures
        r as int == elapsed_ms_of(*e),
{
    e.secs as u128 * 1000 + (e.nanos / 1000000) as u128
}

/// One per-class rate, in thousandths of requests per second.
fn rate_of(count: u32, el: &Option<ElapsedTime>) -> (r: u64)
    ensures
        r == rate_milli(count, *el),
{
    match el {
        Some(e) => {
            let ms = elapsed_millis(e);
            if ms > 0 {
                let r = count as u128 * 1000000 / ms;
                proof {
                    assert(r as int == count as int * 1000000 / ms as int);
                    assert(count as int * 1000000 / ms as int <= count as int * 1000000) by {
                        vstd::arithmetic::div_mod::lemma_div_is_ordered_by_denominator(
                            count as int * 1000000,
                            1,
                            ms as int,
                        );
                    }
                }
                r as u64
            } else {
                0
            }
        },
        None => 0,
    }
}

impl SnapshotResponse {
    /// Project one snapshot, deriving the per-class rates.
    pub fn from(s: &Snapshot) -> (r: SnapshotResponse)
        ensures
            r == spec_snapshot_response(*s),
    {
        let elapsed: Option<u128> = match &s.elapsed {
            Some(e) => Some(elapsed_millis(e)),
            None => None,
        };
        SnapshotResponse {
            state: s.state,
            elapsed,
            tasks: s.tasks,
            task_queue: s.task_queue,
            tasks_max: s.tasks_max,
            min: s.min,
            max: s.max,
            mean: s.mean,
            stdev: s.stdev,
            median: s.median,
            p90: s.p90,
            count: s.count,
            rate_count: rate_of(s.count, &s.elapsed),
            count_1xx: s.count_1xx,
            rate_1xx: rate_of(s.count_1xx, &s.elapsed),
            count_2xx: s.count_2xx,
            rate_2xx: rate_of(s.count_2xx, &s.elapsed),
            count_3xx: s.count_3xx,
            rate_3xx: rate_of(s.count_3xx, &s.elapsed),
            count_4xx: s.count_4xx,
            rate_4xx: rate_of(s.count_4xx, &s.elapsed),
            count_5xx: s.count_5xx,
            rate_5xx: rate_of(s.count_5xx, &s.elapsed),
            count_fail: s.count_fail,
            rate_fail: rate_of(s.count_fail, &s.elapsed),
        }
    }
}

/// One session as the control API lists it: identity, state, and the
/// latest snapshot if any was received.
#[derive(Debug)]
pub struct StatsResponse {
    pub id: u32,
    pub hostname: Option<String>,
    pub socket: String,
    pub state: stats::WorkerState,
    pub latest: Option<SnapshotResponse>,
}

/// The response a session record projects to.
pub open spec fn spec_stats_response(s: stats::Status) -> StatsResponse {
    StatsResponse {
        id: s.id,
        hostname: s.hostname,
        socket: s.socket,
        state: s.state,
        latest: if s.snapshots@.len() == 0 {
            None
        } else {
            Some(spec_snapshot_response(s.snapshots@[0]))
        },
    }
}

impl StatsResponse {
    /// Project one session record; the newest snapshot supplies the
    /// derived rates.
    pub fn from(s: &stats::Status) -> (r: StatsResponse)
        ensures
            r == spec_stats_response(*s),
    {
        let latest: Option<SnapshotResponse> = if s.snapshots.len() == 0 {
            None
        } else {
            Some(SnapshotResponse::from(&s.snapshots[0]))
        };
        StatsResponse {
            id: s.id,
            hostname: match &s.hostname {
                Some(h) => Some(h.clone()),
                None => None,
            },
            socket: s.socket.clone(),
            state: s.state,
            latest,
        }
    }
}

/// The body of the stats listing.
#[derive(Debug)]
pub struct AllStatsResponse {
    pub items: Vec<StatsResponse>,
}

impl AllStatsResponse {
    /// Project every record, in order.
    pub fn from_records(records: &Vec<stats::Status>) -> (r: AllStatsResponse)
        ensures
            r.items@.len() == records@.len(),
            forall|i: int|
                0 <= i < records@.len() ==> r.items@[i] == spec_stats_response(
                    #[trigger] records@[i],
                ),
    {
        let mut items: Vec<StatsResponse> = Vec::new();
        let mut i: usize = 0;
        while i < records.len()
            invariant
                i <= records@.len(),
                items@.len() == i,
                forall|k: int|
                    0 <= k < i ==> items@[k] == spec_stats_response(#[trigger] records@[k]),
            decreases records@.len() - i,
        {
            items.push(StatsResponse::from(&records[i]));
            i = i + 1;
        }
        AllStatsResponse { items }
    }
}

/// The operator's start request: target URLs, with the strategy and
/// concurrency cap optional.
#[derive(Debug)]
pub struct StartCommandRequest {
    pub urls: Vec<String>,
    pub strategy: Option<AttackStrategy>,
    pub max_concurrency: Option<u32>,
}

/// The plain GET each bare URL stands for.
pub open spec fn spec_request_of_url(u: Seq<char>) -> RequestSpecV {
    RequestSpecV {
        version: HttpVersion::Http11,
        method: RequestMethod::GET,
        url: u,
        body: None,
        headers: Seq::empty(),
        random_querystring: None,
        random_header: None,
    }
}

impl StartCommandRequest {
    /// The start command this request stands for: one plain GET per
    /// URL, random strategy and a cap of 50 unless given.
    pub fn into_command(self) -> (c: Command)
        ensures
            c@ == (CommandV::Start {
                requests: Seq::new(self.urls@.len(), |i: int| spec_request_of_url(self.urls@[i]@)),
                strategy: match self.strategy {
                    Some(st) => st,
                    None => AttackStrategy::Random,
                },
                max_concurrency: match self.max_concurrency {
                    Some(mc) => mc,
                    None => 50u32,
                },
            }),
    {
        let mut requests: Vec<RequestSpec> = Vec::new();
        let mut i: usize = 0;
        while i < self.urls.len()
            invariant
                i <= self.urls@.len(),
                requests@.len() == i,
                forall|k: int|
                    0 <= k < i ==> (#[trigger] requests@[k])@ == spec_request_of_url(
                        self.urls@[k]@,
                    ),
            decreases self.urls@.len() - i,
        {
            requests.push(
                RequestSpec {
                    version: HttpVersion::Http11,
                    method: RequestMethod::GET,
                    url: self.urls[i].clone(),
                    body: None,
                    headers: Vec::new(),
                    random_querystring: None,
                    random_header: None,
                },
            );
            proof {
                assert(requests@[i as int]@ =~= spec_request_of_url(self.urls@[i as int]@));
            }
            i = i + 1;
        }
        let strategy = match self.strategy {
            Some(st) => st,
            None => AttackStrategy::Random,
        };
        let max_concurrency = match self.max_concurrency {
            Some(mc) => mc,
            None => 50,
        };
        let c = Command::Start { requests, strategy, max_concurrency };
        proof {
            assert(c@ matches CommandV::Start { requests: rv, .. } ==> rv =~= Seq::new(
                self.urls@.len(),
                |i: int| spec_request_of_url(self.urls@[i]@),
            ));
        }
        c
    }
}

/// The body echoed back for an accepted start command.
#[derive(Debug)]
pub struct CommandResponse {
    pub command: Command,
}

} // verus!
