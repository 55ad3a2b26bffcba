//! The worker-side statistics engine and the coordinator-side session
//! records.
//!
//! `Stats` aggregates per-attempt latencies and status-code counters
//! while a run is under way; `StatsCollector` keeps one record per
//! worker session on the coordinator.  Time enters through explicit
//! millisecond clock readings, so every transition is a function of
//! state and inputs.
use vstd::multiset::Multiset;
use vstd::prelude::*;

use crate::histogram::histo_auto;
use crate::histogram::histo_buckets;
use crate::histogram::histo_cfg;
use crate::histogram::histo_max;
use crate::histogram::histo_mean_ms;
use crate::histogram::histo_min;
use crate::histogram::histo_record;
use crate::histogram::histo_reset;
use crate::histogram::histo_samples;
use crate::histogram::histo_set_auto;
use crate::histogram::histo_stdev_ms;
use crate::histogram::hbuckets_of;
use crate::histogram::hmax_of;
use crate::histogram::hmean_ms_of;
use crate::histogram::hmin_of;
use crate::histogram::hstdev_ms_of;
use crate::histogram::new_histogram;
use crate::histogram::spec_value_at;
use crate::histogram::value_at_fraction;
use crate::histogram::LatencyHistogram;
use crate::messages;
use crate::messages::ElapsedTime;
use crate::messages::StatusV;
use crate::json::chars_to_string;
use crate::json::dec_digits;
use crate::json::push_lit;
use crate::json::push_u64;

verus! {

/// Latencies are tracked from 1 ms up to one minute before the
/// histogram starts resizing.
pub const HISTOGRAM_MAX_MS: u64 = 60000;

/// Significant decimal digits kept by the latency histogram.
pub const HISTOGRAM_SIGFIG: u8 = 5;

/// The wrap-around of a counter at the top of `u32`, matching a
/// fetch-and-add on an atomic counter.
pub open spec fn wrap_inc(x: u32) -> u32 {
    if x == u32::MAX {
        0
    } else {
        (x + 1) as u32
    }
}

/// Per-class request counters.
#[derive(Clone, Copy, PartialEq, Eq, Structural, Debug)]
pub struct Counters {
    pub count: u32,
    pub count_1xx: u32,
    pub count_2xx: u32,
    pub count_3xx: u32,
    pub count_4xx: u32,
    pub count_5xx: u32,
    pub count_fail: u32,
}

/// The sum of the per-class counters, as an unbounded integer.
pub open spec fn class_sum(c: Counters) -> int {
    c.count_1xx + c.count_2xx + c.count_3xx + c.count_4xx + c.count_5xx + c.count_fail
}

/// The total counter agrees with the class counters, up to the `u32`
/// wrap-around of each.
pub open spec fn counts_consistent(c: Counters) -> bool {
    (c.count as int) % 0x100000000 == class_sum(c) % 0x100000000
}

impl Counters {
    pub fn new() -> (c: Counters)
        ensures
            c == (Counters {
                count: 0u32,
                count_1xx: 0u32,
                count_2xx: 0u32,
                count_3xx: 0u32,
                count_4xx: 0u32,
                count_5xx: 0u32,
                count_fail: 0u32,
            }),
    {
        Counters {
            count: 0,
            count_1xx: 0,
            count_2xx: 0,
            count_3xx: 0,
            count_4xx: 0,
            count_5xx: 0,
            count_fail: 0,
        }
    }

    pub fn inc_count(&mut self)
        ensures
            *final(self) == (Counters { count: wrap_inc(old(self).count), ..*old(self) }),
    {
        self.count = self.count.wrapping_add(1);
    }

    pub fn inc_1xx(&mut self)
        ensures
            *final(self) == (Counters { count_1xx: wrap_inc(old(self).count_1xx), ..*old(self) }),
    {
        self.count_1xx = self.count_1xx.wrapping_add(1);
    }

    pub fn inc_2xx(&mut self)
        ensures
            *final(self) == (Counters { count_2xx: wrap_inc(old(self).count_2xx), ..*old(self) }),
    {
        self.count_2xx = self.count_2xx.wrapping_add(1);
    }

    pub fn inc_3xx(&mut self)
        ensures
            *final(self) == (Counters { count_3xx: wrap_inc(old(self).count_3xx), ..*old(self) }),
    {
        self.count_3xx = self.count_3xx.wrapping_add(1);
    }

    pub fn inc_4xx(&mut self)
        ensures
            *final(self) == (Counters { count_4xx: wrap_inc(old(self).count_4xx), ..*old(self) }),
    {
        self.count_4xx = self.count_4xx.wrapping_add(1);
    }

    pub fn inc_5xx(&mut self)
        ensures
            *final(self) == (Counters { count_5xx: wrap_inc(old(self).count_5xx), ..*old(self) }),
    {
        self.count_5xx = self.count_5xx.wrapping_add(1);
    }

    pub fn inc_fail(&mut self)
        ensures
            *final(self) == (Counters {
                count_fail: wrap_inc(old(self).count_fail),
                ..*old(self)
            }),
    {
        self.count_fail = self.count_fail.wrapping_add(1);
    }

    pub fn clear(&mut self)
        ensures
            *final(self) == (Counters {
                count: 0u32,
                count_1xx: 0u32,
                count_2xx: 0u32,
                count_3xx: 0u32,
                count_4xx: 0u32,
                count_5xx: 0u32,
                count_fail: 0u32,
            }),
    {
        self.count = 0;
        self.count_1xx = 0;
        self.count_2xx = 0;
        self.count_3xx = 0;
        self.count_4xx = 0;
        self.count_5xx = 0;
        self.count_fail = 0;
    }
}

/// How one attempt's outcome moves the counters: the total always
/// advances; the class matching the status code advances, or the
/// failure class when there was no response.  A status below 100 moves
/// no class counter.
pub open spec fn spec_record_counters(c: Counters, status: Option<u16>) -> Counters {
    let c1 = Counters { count: wrap_inc(c.count), ..c };
    match status {
        Some(code) => if code >= 500 {
            Counters { count_5xx: wrap_inc(c1.count_5xx), ..c1 }
        } else if code >= 400 {
            Counters { count_4xx: wrap_inc(c1.count_4xx), ..c1 }
        } else if code >= 300 {
            Counters { count_3xx: wrap_inc(c1.count_3xx), ..c1 }
        } else if code >= 200 {
            Counters { count_2xx: wrap_inc(c1.count_2xx), ..c1 }
        } else if code >= 100 {
            Counters { count_1xx: wrap_inc(c1.count_1xx), ..c1 }
        } else {
            c1
        },
        None => Counters { count_fail: wrap_inc(c1.count_fail), ..c1 },
    }
}

/// Recording an attempt with a failure or a real status code (at least
/// 100) keeps the total equal to the sum of the classes, up to the
/// `u32` wrap-around of each counter.
pub proof fn lemma_record_keeps_counts_consistent(c: Counters, status: Option<u16>)
    requires
        counts_consistent(c),
        status matches Some(code) ==> code >= 100,
    ensures
        counts_consistent(spec_record_counters(c, status)),
{
    let m = 0x100000000int;
    let c2 = spec_record_counters(c, status);
    assert(c2.count == wrap_inc(c.count));
    assert((c2.count as int) % m == (c.count as int + 1) % m) by {
        if c.count == u32::MAX {
            vstd::arithmetic::div_mod::lemma_mod_multiples_vanish(1, 0, m);
        }
    }
    assert(class_sum(c2) % m == (class_sum(c) + 1) % m) by {
        if class_sum(c2) != class_sum(c) + 1 {
            assert(class_sum(c2) == class_sum(c) + 1 - m);
            vstd::arithmetic::div_mod::lemma_mod_multiples_vanish(-1, class_sum(c) + 1, m);
        }
    }
    vstd::arithmetic::div_mod::lemma_add_mod_noop(c.count as int, 1, m);
    vstd::arithmetic::div_mod::lemma_add_mod_noop(class_sum(c), 1, m);
    assert((c.count as int + 1) % m == (class_sum(c) + 1) % m) by {
        assert((c.count as int) % m == class_sum(c) % m);
        assert(1int % m == 1int % m);
    }
}

/// Without wrap-around the identity is exact: while the total has not
/// reached the top of `u32`, one recorded attempt with a failure or a
/// real status code keeps the total equal to the sum of the classes.
pub proof fn lemma_record_exact_count_sum(c: Counters, status: Option<u16>)
    requires
        c.count < u32::MAX,
        c.count as int == class_sum(c),
        status matches Some(code) ==> code >= 100,
    ensures
        spec_record_counters(c, status).count as int == class_sum(spec_record_counters(c, status)),
{
}

// ---------------------------------------------------------------------
// The statistics aggregate
// ---------------------------------------------------------------------

/// The worker's running statistics.
pub struct Stats {
    pub state: messages::WorkerState,
    /// Millisecond reading of the caller's clock when the run started.
    pub started: Option<u64>,
    /// Milliseconds between start and stop, fixed by `stop`.
    pub elapsed: Option<u64>,
    pub counters: Counters,
    pub histo: LatencyHistogram,
    pub tasks: u32,
    pub task_queue: u32,
    pub tasks_max: u32,
}

/// The mathematical state of the aggregate: plain fields plus the
/// multiset of latency samples.
#[verifier::ext_equal]
pub struct StatsModel {
    pub state: messages::WorkerState,
    pub started: Option<u64>,
    pub elapsed: Option<u64>,
    pub counters: Counters,
    pub samples: Multiset<u64>,
    pub cfg: (u64, u8),
    /// Whether the histogram grows to take any sample.
    pub auto: bool,
    pub tasks: u32,
    pub task_queue: u32,
    pub tasks_max: u32,
}

impl View for Stats {
    type V = StatsModel;

    open spec fn view(&self) -> StatsModel {
        StatsModel {
            state: self.state,
            started: self.started,
            elapsed: self.elapsed,
            counters: self.counters,
            samples: histo_samples(self.histo),
            cfg: histo_cfg(self.histo),
            auto: histo_auto(self.histo),
            tasks: self.tasks,
            task_queue: self.task_queue,
            tasks_max: self.tasks_max,
        }
    }
}

/// Well-formedness: the counters agree and the task gauges never
/// exceed the configured maximum.
pub open spec fn stats_wf(m: StatsModel) -> bool {
    &&& counts_consistent(m.counters)
    &&& m.tasks <= m.tasks_max
    &&& m.task_queue <= m.tasks_max
}

/// The state after `reset`: everything cleared, configuration kept.
pub open spec fn spec_reset(m: StatsModel) -> StatsModel {
    StatsModel {
        state: messages::WorkerState::Idle,
        started: None,
        elapsed: None,
        counters: Counters {
            count: 0u32,
            count_1xx: 0u32,
            count_2xx: 0u32,
            count_3xx: 0u32,
            count_4xx: 0u32,
            count_5xx: 0u32,
            count_fail: 0u32,
        },
        samples: Multiset::empty(),
        cfg: m.cfg,
        auto: m.auto,
        tasks: 0u32,
        task_queue: 0u32,
        tasks_max: 0u32,
    }
}

/// The state after `start`: a reset followed by entering the busy
/// state with the clock reading recorded.
pub open spec fn spec_start(m: StatsModel, now_ms: u64) -> StatsModel {
    StatsModel {
        state: messages::WorkerState::Busy,
        started: Some(now_ms),
        ..spec_reset(m)
    }
}

/// Milliseconds from `a` to `b`, zero if the clock went backwards.
pub open spec fn sat_sub(b: u64, a: u64) -> u64 {
    if b >= a {
        (b - a) as u64
    } else {
        0
    }
}

/// The state after `stop`: the elapsed span is fixed from the start
/// reading (cleared if there was none) and the state returns to idle.
pub open spec fn spec_stop(m: StatsModel, now_ms: u64) -> StatsModel {
    StatsModel {
        state: messages::WorkerState::Idle,
        elapsed: match m.started {
            Some(st) => Some(sat_sub(now_ms, st)),
            None => None,
        },
        ..m
    }
}

/// The state after `record`: counters move by the attempt's outcome
/// and the latency sample is added, unless the histogram dropped it.
pub open spec fn spec_record(m: StatsModel, status: Option<u16>, elapsed_ms: u64, stored: bool)
    -> StatsModel {
    StatsModel {
        counters: spec_record_counters(m.counters, status),
        samples: if stored {
            m.samples.insert(elapsed_ms)
        } else {
            m.samples
        },
        ..m
    }
}

/// The elapsed span a snapshot reports at clock reading `now_ms`: the
/// fixed span if one was recorded, else the span since the start.
pub open spec fn spec_snapshot_elapsed(m: StatsModel, now_ms: u64) -> Option<u64> {
    match m.elapsed {
        Some(e) => Some(e),
        None => match m.started {
            Some(st) => Some(sat_sub(now_ms, st)),
            None => None,
        },
    }
}

/// Splits a millisecond span into whole seconds and nanoseconds.
pub open spec fn ms_to_elapsed(ms: u64) -> ElapsedTime {
    ElapsedTime { secs: (ms / 1000) as u64, nanos: ((ms % 1000) * 1000000) as u32 }
}

/// The status snapshot taken from state `m` at clock reading `now_ms`.
pub open spec fn spec_snapshot(m: StatsModel, now_ms: u64) -> StatusV {
    StatusV {
        hostname: None,
        socket: None,
        state: m.state,
        elapsed: match spec_snapshot_elapsed(m, now_ms) {
            Some(ms) => Some(ms_to_elapsed(ms)),
            None => None,
        },
        tasks: m.tasks,
        task_queue: m.task_queue,
        tasks_max: m.tasks_max,
        min: hmin_of(m.cfg, m.samples),
        max: hmax_of(m.cfg, m.samples),
        mean: hmean_ms_of(m.cfg, m.samples),
        stdev: hstdev_ms_of(m.cfg, m.samples),
        median: spec_value_at(hbuckets_of(m.cfg, m.samples), 1, 2, 0, 0),
        p90: spec_value_at(hbuckets_of(m.cfg, m.samples), 9, 10, 0, 0),
        count: m.counters.count,
        count_1xx: m.counters.count_1xx,
        count_2xx: m.counters.count_2xx,
        count_3xx: m.counters.count_3xx,
        count_4xx: m.counters.count_4xx,
        count_5xx: m.counters.count_5xx,
        count_fail: m.counters.count_fail,
    }
}

impl Stats {
    /// A fresh aggregate: idle, zeroed, with an empty auto-resizing
    /// histogram.
    pub fn new() -> (s: Stats)
        ensures
            s@ == (StatsModel {
                state: messages::WorkerState::Idle,
                started: None,
                elapsed: None,
                counters: Counters {
                    count: 0u32,
                    count_1xx: 0u32,
                    count_2xx: 0u32,
                    count_3xx: 0u32,
                    count_4xx: 0u32,
                    count_5xx: 0u32,
                    count_fail: 0u32,
                },
                samples: Multiset::<u64>::empty(),
                cfg: (HISTOGRAM_MAX_MS, HISTOGRAM_SIGFIG),
                auto: true,
                tasks: 0u32,
                task_queue: 0u32,
                tasks_max: 0u32,
            }),
            stats_wf(s@),
    {
        match new_histogram(HISTOGRAM_MAX_MS, HISTOGRAM_SIGFIG) {
            Some(mut histo) => {
                histo_set_auto(&mut histo, true);
                Stats {
                    state: messages::WorkerState::Idle,
                    started: None,
                    elapsed: None,
                    counters: Counters::new(),
                    histo,
                    tasks: 0,
                    task_queue: 0,
                    tasks_max: 0,
                }
            },
            None => vstd::pervasive::unreached(),
        }
    }

    /// Clear everything; the histogram keeps only its configuration.
    pub fn reset(&mut self)
        ensures
            final(self)@ == spec_reset(old(self)@),
            stats_wf(final(self)@),
    {
        self.counters.clear();
        histo_reset(&mut self.histo);
        self.state = messages::WorkerState::Idle;
        self.started = None;
        self.elapsed = None;
        self.tasks = 0;
        self.task_queue = 0;
        self.tasks_max = 0;
    }

    /// Begin a run: reset, then go busy with the start reading kept.
    pub fn start(&mut self, now_ms: u64)
        ensures
            final(self)@ == spec_start(old(self)@, now_ms),
            stats_wf(final(self)@),
    {
        self.reset();
        self.state = messages::WorkerState::Busy;
        self.started = Some(now_ms);
    }

    /// End a run: fix the elapsed span and go idle.
    pub fn stop(&mut self, now_ms: u64)
        requires
            stats_wf(old(self)@),
        ensures
            final(self)@ == spec_stop(old(self)@, now_ms),
            stats_wf(final(self)@),
    {
        self.elapsed = match self.started {
            Some(st) => {
                if now_ms >= st {
                    Some(now_ms - st)
                } else {
                    Some(0)
                }
            },
            None => None,
        };
        self.state = messages::WorkerState::Idle;
    }

    pub fn record_task_max(&mut self, max: u32)
        requires
            stats_wf(old(self)@),
            old(self).tasks <= max,
            old(self).task_queue <= max,
        ensures
            final(self)@ == (StatsModel { tasks_max: max, ..old(self)@ }),
            stats_wf(final(self)@),
    {
        self.tasks_max = max;
    }

    pub fn record_current_tasks(&mut self, current: u32)
        requires
            stats_wf(old(self)@),
            current <= old(self).tasks_max,
        ensures
            final(self)@ == (StatsModel { tasks: current, ..old(self)@ }),
            stats_wf(final(self)@),
    {
        self.tasks = current;
    }

    pub fn record_queue_depth(&mut self, depth: u32)
        requires
            stats_wf(old(self)@),
            depth <= old(self).tasks_max,
        ensures
            final(self)@ == (StatsModel { task_queue: depth, ..old(self)@ }),
            stats_wf(final(self)@),
    {
        self.task_queue = depth;
    }


    /// Set all three task-pool gauges together.
    pub fn record_gauges(&mut self, current: u32, depth: u32, max: u32)
        requires
            stats_wf(old(self)@),
            current <= max,
            depth <= max,
        ensures
            final(self)@ == (StatsModel {
                tasks: current,
                task_queue: depth,
                tasks_max: max,
                ..old(self)@
            }),
            stats_wf(final(self)@),
    {
        self.tasks = current;
        self.task_queue = depth;
        self.tasks_max = max;
    }

    /// Count one attempt and record its latency.  While the histogram
    /// resizes itself (as every aggregate this module builds does), the
    /// sample is always taken; a sample a non-resizing histogram cannot
    /// take is dropped, never an error.
    pub fn record(&mut self, status: Option<u16>, elapsed_ms: u64)
        requires
            stats_wf(old(self)@),
            status matches Some(code) ==> code >= 100,
        ensures
            old(self)@.auto ==> final(self)@ == spec_record(old(self)@, status, elapsed_ms, true),
            final(self)@ == spec_record(old(self)@, status, elapsed_ms, true) || final(self)@
                == spec_record(old(self)@, status, elapsed_ms, false),
            stats_wf(final(self)@),
    {
        proof {
            lemma_record_keeps_counts_consistent(self.counters, status);
        }
        self.counters.inc_count();
        match status {
            Some(code) => {
                if code >= 500 {
                    self.counters.inc_5xx();
                } else if code >= 400 {
                    self.counters.inc_4xx();
                } else if code >= 300 {
                    self.counters.inc_3xx();
                } else if code >= 200 {
                    self.counters.inc_2xx();
                } else {
                    self.counters.inc_1xx();
                }
            },
            None => {
                self.counters.inc_fail();
            },
        }
        let stored = histo_record(&mut self.histo, elapsed_ms);
    }

    /// One coherent snapshot of every field, at clock reading `now_ms`.
    pub fn as_message(&self, now_ms: u64) -> (st: messages::Status)
        ensures
            st@ == spec_snapshot(self@, now_ms),
            self@.samples == Multiset::<u64>::empty() ==> st.min == 0 && st.max == 0 && st.mean
                == 0 && st.stdev == 0 && st.median == 0 && st.p90 == 0,
    {
        let elapsed_ms: Option<u64> = match self.elapsed {
            Some(e) => Some(e),
            None => match self.started {
                Some(st) => {
                    if now_ms >= st {
                        Some(now_ms - st)
                    } else {
                        Some(0)
                    }
                },
                None => None,
            },
        };
        let elapsed: Option<ElapsedTime> = match elapsed_ms {
            Some(ms) => Some(
                ElapsedTime { secs: ms / 1000, nanos: ((ms % 1000) * 1000000) as u32 },
            ),
            None => None,
        };
        let buckets = histo_buckets(&self.histo);
        let median = value_at_fraction(&buckets, 1, 2);
        let p90 = value_at_fraction(&buckets, 9, 10);
        messages::Status {
            hostname: None,
            socket: None,
            state: self.state,
            elapsed,
            tasks: self.tasks,
            task_queue: self.task_queue,
            tasks_max: self.tasks_max,
            min: histo_min(&self.histo),
            max: histo_max(&self.histo),
            mean: histo_mean_ms(&self.histo),
            stdev: histo_stdev_ms(&self.histo),
            median,
            p90,
            count: self.counters.count,
            count_1xx: self.counters.count_1xx,
            count_2xx: self.counters.count_2xx,
            count_3xx: self.counters.count_3xx,
            count_4xx: self.counters.count_4xx,
            count_5xx: self.counters.count_5xx,
            count_fail: self.counters.count_fail,
        }
    }
}

// ---------------------------------------------------------------------
// Laws of the aggregate
// ---------------------------------------------------------------------

/// In every well-formed state, the total counter equals the sum of the
/// per-class counters, up to the `u32` wrap-around of each.
pub proof fn lemma_count_is_class_sum(m: StatsModel)
    requires
        stats_wf(m),
    ensures
        (m.counters.count as int) % 0x100000000 == class_sum(m.counters) % 0x100000000,
{
}

/// In every well-formed state, neither task gauge exceeds the
/// configured maximum.
pub proof fn lemma_gauges_bounded(m: StatsModel)
    requires
        stats_wf(m),
    ensures
        m.tasks <= m.tasks_max,
        m.task_queue <= m.tasks_max,
{
}

/// After a reset, every counter is zero, the histogram holds no
/// samples, the state is idle, and no start or elapsed reading is
/// kept.
pub proof fn lemma_reset_clears(m: StatsModel)
    ensures
        spec_reset(m).counters.count == 0,
        class_sum(spec_reset(m).counters) == 0,
        spec_reset(m).samples == Multiset::<u64>::empty(),
        spec_reset(m).state == messages::WorkerState::Idle,
        spec_reset(m).started is None,
        spec_reset(m).elapsed is None,
        spec_reset(m).tasks == 0 && spec_reset(m).task_queue == 0 && spec_reset(m).tasks_max == 0,
{
}

/// A snapshot copies the counters, so an exact counter identity in the
/// state carries over to the reported fields.
pub proof fn lemma_snapshot_count_sum(m: StatsModel, now_ms: u64)
    requires
        m.counters.count as int == class_sum(m.counters),
    ensures
        ({
            let st = spec_snapshot(m, now_ms);
            st.count as int == st.count_1xx + st.count_2xx + st.count_3xx + st.count_4xx
                + st.count_5xx + st.count_fail
        }),
{
}

/// For a fixed start reading, the elapsed span a snapshot reports
/// never decreases as the clock advances.
pub proof fn lemma_snapshot_elapsed_monotone(m: StatsModel, n1: u64, n2: u64)
    requires
        n1 <= n2,
    ensures
        match (spec_snapshot_elapsed(m, n1), spec_snapshot_elapsed(m, n2)) {
            (Some(e1), Some(e2)) => e1 <= e2,
            (None, None) => true,
            _ => false,
        },
{
}

/// Stopping twice at the same clock reading is the same as stopping
/// once: stop is idempotent.  (Stop recomputes the span from the kept
/// start reading, so a second stop at a later reading refreshes the
/// span; idempotence is therefore stated at one reading.)
pub proof fn lemma_stop_idempotent(m: StatsModel, now_ms: u64)
    ensures
        spec_stop(spec_stop(m, now_ms), now_ms) == spec_stop(m, now_ms),
{
}

/// Resetting twice is the same as resetting once: reset is idempotent.
pub proof fn lemma_reset_idempotent(m: StatsModel)
    ensures
        spec_reset(spec_reset(m)) == spec_reset(m),
{
}


// ---------------------------------------------------------------------
// Coordinator-side session records
// ---------------------------------------------------------------------

/// The coordinator's view of one session's lifecycle.
#[derive(Clone, Copy, PartialEq, Eq, Structural, Debug)]
pub enum WorkerState {
    Connected,
    Idle,
    Busy,
    Disconnected,
}

/// The session state a worker-reported state maps to.
pub open spec fn state_of_worker(s: messages::WorkerState) -> WorkerState {
    match s {
        messages::WorkerState::Idle => WorkerState::Idle,
        messages::WorkerState::Busy => WorkerState::Busy,
    }
}

impl From<messages::WorkerState> for WorkerState {
    fn from(s: messages::WorkerState) -> (r: WorkerState) {
        match s {
            messages::WorkerState::Idle => WorkerState::Idle,
            messages::WorkerState::Busy => WorkerState::Busy,
        }
    }
}

impl vstd::std_specs::convert::FromSpecImpl<messages::WorkerState> for WorkerState {
    open spec fn obeys_from_spec() -> bool {
        true
    }

    open spec fn from_spec(s: messages::WorkerState) -> WorkerState {
        state_of_worker(s)
    }
}

/// A timestamped projection of one worker status report.
#[derive(Clone, Copy, PartialEq, Eq, Structural, Debug)]
pub struct Snapshot {
    /// Millisecond reading of the coordinator's clock at receipt.
    pub timestamp: u64,
    pub state: WorkerState,
    pub elapsed: Option<ElapsedTime>,
    pub tasks: u32,
    pub task_queue: u32,
    pub tasks_max: u32,
    pub min: u64,
    pub max: u64,
    pub mean: u64,
    pub stdev: u64,
    pub median: u64,
    pub p90: u64,
    pub count: u32,
    pub count_1xx: u32,
    pub count_2xx: u32,
    pub count_3xx: u32,
    pub count_4xx: u32,
    pub count_5xx: u32,
    pub count_fail: u32,
}

/// The snapshot a status report projects to at clock reading `now_ms`.
pub open spec fn snap_of_status(st: StatusV, now_ms: u64) -> Snapshot {
    Snapshot {
        timestamp: now_ms,
        state: state_of_worker(st.state),
        elapsed: st.elapsed,
        tasks: st.tasks,
        task_queue: st.task_queue,
        tasks_max: st.tasks_max,
        min: st.min,
        max: st.max,
        mean: st.mean,
        stdev: st.stdev,
        median: st.median,
        p90: st.p90,
        count: st.count,
        count_1xx: st.count_1xx,
        count_2xx: st.count_2xx,
        count_3xx: st.count_3xx,
        count_4xx: st.count_4xx,
        count_5xx: st.count_5xx,
        count_fail: st.count_fail,
    }
}

impl Snapshot {
    pub fn of_status(st: &messages::Status, now_ms: u64) -> (r: Snapshot)
        ensures
            r == snap_of_status(st@, now_ms),
    {
        Snapshot {
            timestamp: now_ms,
            state: WorkerState::from(st.state),
            elapsed: st.elapsed,
            tasks: st.tasks,
            task_queue: st.task_queue,
            tasks_max: st.tasks_max,
            min: st.min,
            max: st.max,
            mean: st.mean,
            stdev: st.stdev,
            median: st.median,
            p90: st.p90,
            count: st.count,
            count_1xx: st.count_1xx,
            count_2xx: st.count_2xx,
            count_3xx: st.count_3xx,
            count_4xx: st.count_4xx,
            count_5xx: st.count_5xx,
            count_fail: st.count_fail,
        }
    }
}

/// Snapshot histories are bounded and most-recent-first.
pub const SNAPSHOT_HISTORY: usize = 100;

/// One session's record on the coordinator.
#[derive(Debug)]
pub struct Status {
    /// Assigned at accept time from the collector's counter.
    pub id: u32,
    pub hostname: Option<String>,
    /// The peer address, as text.
    pub socket: String,
    pub state: WorkerState,
    pub connect_time: u64,
    pub disconnect_time: Option<u64>,
    /// Most recent first, at most `SNAPSHOT_HISTORY` entries.
    pub snapshots: Vec<Snapshot>,
}

impl Status {
    /// Bounded history with weakly descending timestamps.
    pub open spec fn wf(&self) -> bool {
        &&& self.snapshots@.len() <= 100
        &&& forall|i: int, j: int|
            0 <= i <= j < self.snapshots@.len() ==> (#[trigger] self.snapshots@[i]).timestamp
                >= (#[trigger] self.snapshots@[j]).timestamp
    }

    pub fn connect(id: u32, socket: String, hostname: Option<String>, now_ms: u64) -> (r: Status)
        ensures
            r.id == id,
            r.socket == socket,
            view_opt_str(r.hostname) == view_opt_str(hostname),
            r.state == WorkerState::Connected,
            r.connect_time == now_ms,
            r.disconnect_time is None,
            r.snapshots@ == Seq::<Snapshot>::empty(),
            r.wf(),
    {
        Status {
            id,
            hostname,
            socket,
            state: WorkerState::Connected,
            connect_time: now_ms,
            disconnect_time: None,
            snapshots: Vec::new(),
        }
    }

    /// Take one status report into the record: state and hostname
    /// follow the report; the snapshot is pushed to the front and the
    /// history is trimmed to its bound.
    pub fn record(&mut self, st: &messages::Status, now_ms: u64)
        requires
            old(self).wf(),
            old(self).snapshots@.len() > 0 ==> now_ms >= old(self).snapshots@[0].timestamp,
        ensures
            final(self).id == old(self).id,
            final(self).socket == old(self).socket,
            final(self).connect_time == old(self).connect_time,
            final(self).disconnect_time == old(self).disconnect_time,
            final(self).state == state_of_worker(st.state),
            view_opt_str(final(self).hostname) == view_opt_str(st.hostname),
            final(self).snapshots@ == (seq![snap_of_status(st@, now_ms)]
                + old(self).snapshots@).take(
                if old(self).snapshots@.len() >= 100 {
                    100int
                } else {
                    old(self).snapshots@.len() + 1int
                },
            ),
            final(self).snapshots@.len() <= 100,
            final(self).snapshots@[0] == snap_of_status(st@, now_ms),
            final(self).wf(),
    {
        self.state = WorkerState::from(st.state);
        self.hostname = match &st.hostname {
            Some(h) => Some(h.clone()),
            None => None,
        };
        let snap = Snapshot::of_status(st, now_ms);
        self.snapshots.insert(0, snap);
        self.snapshots.truncate(SNAPSHOT_HISTORY);
        proof {
            let pushed = seq![snap_of_status(st@, now_ms)] + old(self).snapshots@;
            assert(old(self).snapshots@.insert(0, snap) =~= pushed);
            if old(self).snapshots@.len() >= 100 {
                assert(self.snapshots@ =~= pushed.take(100));
            } else {
                assert(self.snapshots@ =~= pushed.take(old(self).snapshots@.len() + 1int));
            }
        }
    }

    pub fn disconnect(&mut self, now_ms: u64)
        requires
            old(self).wf(),
        ensures
            *final(self) == (Status {
                state: WorkerState::Disconnected,
                disconnect_time: Some(now_ms),
                ..*old(self)
            }),
            final(self).wf(),
    {
        self.state = WorkerState::Disconnected;
        self.disconnect_time = Some(now_ms);
    }

    pub fn is_disconnected(&self) -> (r: bool)
        ensures
            r == (self.state == WorkerState::Disconnected),
    {
        match self.state {
            WorkerState::Disconnected => true,
            _ => false,
        }
    }
}

/// Push-front-then-trim keeps the history bounded and the newest
/// snapshot first: in every well-formed record the history holds at
/// most its bound and the head's timestamp is the largest.
pub proof fn lemma_history_bounded_and_fresh(s: Status)
    requires
        s.wf(),
    ensures
        s.snapshots@.len() <= 100,
        forall|i: int|
            0 <= i < s.snapshots@.len() ==> s.snapshots@[0].timestamp
                >= (#[trigger] s.snapshots@[i]).timestamp,
{
}

/// The option-of-string view used in record contracts.
pub open spec fn view_opt_str(o: Option<String>) -> Option<Seq<char>> {
    messages::view_opt_string(o)
}

// ---------------------------------------------------------------------
// The collector
// ---------------------------------------------------------------------

/// The first position holding `id`, or -1.
pub open spec fn index_of_id(rs: Seq<Status>, id: u32) -> int
    decreases rs.len(),
{
    if rs.len() == 0 {
        -1
    } else if rs[0].id == id {
        0
    } else {
        let r = index_of_id(rs.drop_first(), id);
        if r == -1 {
            -1
        } else {
            r + 1
        }
    }
}

pub proof fn lemma_index_of_id(rs: Seq<Status>, id: u32)
    ensures
        index_of_id(rs, id) == -1 ==> forall|i: int| 0 <= i < rs.len() ==> (#[trigger] rs[i]).id
            != id,
        index_of_id(rs, id) != -1 ==> 0 <= index_of_id(rs, id) < rs.len() && rs[index_of_id(
            rs,
            id,
        )].id == id,
    decreases rs.len(),
{
    if rs.len() > 0 && rs[0].id != id {
        lemma_index_of_id(rs.drop_first(), id);
        if index_of_id(rs, id) == -1 {
            assert forall|i: int| 0 <= i < rs.len() implies (#[trigger] rs[i]).id != id by {
                if i > 0 {
                    assert(rs.drop_first()[i - 1] == rs[i]);
                    assert(rs.drop_first()[i - 1].id != id);
                }
            }
        } else {
            assert(rs[index_of_id(rs, id)] == rs.drop_first()[index_of_id(rs, id) - 1]);
        }
    }
}

/// The errors of the collector's ingest path.
#[derive(Clone, Copy, PartialEq, Eq, Structural, Debug)]
pub enum CollectorError {
    /// The session id is not (or no longer) present.
    UnknownSession { id: u32 },
}

impl CollectorError {
    /// The error as text, naming the session id.
    pub fn message(&self) -> (m: String)
        ensures
            self matches CollectorError::UnknownSession { id } ==> m@ == "session "@
                + dec_digits(id as nat) + " not found in current clients"@,
    {
        let CollectorError::UnknownSession { id } = self;
        let mut out: Vec<char> = Vec::new();
        push_lit(&mut out, "session ");
        push_u64(&mut out, *id as u64);
        push_lit(&mut out, " not found in current clients");
        proof {
            assert(out@ =~= "session "@ + dec_digits(*id as nat)
                + " not found in current clients"@);
        }
        chars_to_string(&out)
    }
}

/// The coordinator's map from session id to record, with the id
/// allocator.
#[derive(Debug)]
pub struct StatsCollector {
    pub records: Vec<Status>,
    pub id_counter: u32,
}

impl StatsCollector {
    /// Every record is well formed.
    pub open spec fn wf(&self) -> bool {
        forall|i: int| 0 <= i < self.records@.len() ==> (#[trigger] self.records@[i]).wf()
    }

    pub fn new() -> (c: StatsCollector)
        ensures
            c.records@ == Seq::<Status>::empty(),
            c.id_counter == 0,
            c.wf(),
    {
        StatsCollector { records: Vec::new(), id_counter: 0 }
    }

    /// Register a new session: a fresh id is allocated and a connected
    /// record stored; a stale record under the same wrapped id is
    /// replaced.
    pub fn connect(&mut self, socket: String, now_ms: u64) -> (id: u32)
        requires
            old(self).wf(),
        ensures
            id == old(self).id_counter,
            final(self).id_counter == wrap_inc(old(self).id_counter),
            final(self).wf(),
            ({
                let k = index_of_id(old(self).records@, id);
                let fresh = final(self).records@.last();
                &&& fresh.id == id
                &&& fresh.state == WorkerState::Connected
                &&& fresh.socket == socket
                &&& fresh.connect_time == now_ms
                &&& fresh.snapshots@.len() == 0
                &&& if k == -1 {
                    final(self).records@.drop_last() == old(self).records@
                } else {
                    final(self).records@.drop_last() == old(self).records@.remove(k)
                }
            }),
    {
        let id = self.id_counter;
        self.id_counter = self.id_counter.wrapping_add(1);
        match self.find_index(id) {
            Some(k) => {
                self.records.remove(k);
            },
            None => {},
        }
        let fresh = Status::connect(id, socket, None, now_ms);
        self.records.push(fresh);
        proof {
            assert(final(self).records@.drop_last() =~= self.records@.drop_last());
        }
        id
    }

    /// The position of the record with `id`, if one is present.
    pub fn find_index(&self, id: u32) -> (r: Option<usize>)
        ensures
            match r {
                Some(k) => k < self.records@.len() && index_of_id(self.records@, id) == k as int,
                None => index_of_id(self.records@, id) == -1,
            },
    {
        let mut i: usize = 0;
        while i < self.records.len()
            invariant
                i <= self.records@.len(),
                forall|j: int| 0 <= j < i ==> (#[trigger] self.records@[j]).id != id,
            decreases self.records@.len() - i,
        {
            if self.records[i].id == id {
                proof {
                    lemma_index_prefix(self.records@, id, i as int);
                }
                return Some(i);
            }
            i = i + 1;
        }
        proof {
            lemma_index_of_id(self.records@, id);
            if index_of_id(self.records@, id) != -1 {
                assert(false);
            }
        }
        None
    }

    /// Record one status report under its session id; unknown ids are
    /// reported, not stored.
    pub fn insert(&mut self, id: u32, st: &messages::Status, now_ms: u64) -> (r: Result<
        (),
        CollectorError,
    >)
        requires
            old(self).wf(),
            forall|i: int|
                0 <= i < old(self).records@.len() && (#[trigger] old(
                    self,
                ).records@[i]).snapshots@.len() > 0 ==> now_ms
                    >= old(self).records@[i].snapshots@[0].timestamp,
        ensures
            final(self).id_counter == old(self).id_counter,
            final(self).wf(),
            ({
                let k = index_of_id(old(self).records@, id);
                if k == -1 {
                    r == Result::<(), CollectorError>::Err(
                        CollectorError::UnknownSession { id },
                    ) && final(self).records@ == old(self).records@
                } else {
                    &&& r is Ok
                    &&& final(self).records@.len() == old(self).records@.len()
                    &&& forall|j: int|
                        0 <= j < old(self).records@.len() && j != k ==> final(self).records@[j]
                            == old(self).records@[j]
                    &&& final(self).records@[k].state == state_of_worker(st.state)
                    &&& final(self).records@[k].id == old(self).records@[k].id
                    &&& final(self).records@[k].snapshots@.len() > 0
                    &&& final(self).records@[k].snapshots@[0] == snap_of_status(st@, now_ms)
                }
            }),
    {
        match self.find_index(id) {
            Some(k) => {
                let mut rec = self.records.remove(k);
                rec.record(st, now_ms);
                self.records.insert(k, rec);
                proof {
                    assert(forall|j: int|
                        0 <= j < old(self).records@.len() && j != k ==> final(self).records@[j]
                            == old(self).records@[j]);
                }
                Ok(())
            },
            None => Err(CollectorError::UnknownSession { id }),
        }
    }

    /// Forget every disconnected session.
    pub fn prune_disconnected(&mut self)
        requires
            old(self).wf(),
        ensures
            final(self).id_counter == old(self).id_counter,
            final(self).records@ == old(self).records@.filter(
                |s: Status| s.state != WorkerState::Disconnected,
            ),
            final(self).wf(),
    {
        let ghost orig = self.records@;
        let ghost p = |s: Status| s.state != WorkerState::Disconnected;
        let mut i: usize = 0;
        let ghost j: int = 0;
        proof {
            assert(orig.take(0).filter(p) =~= Seq::<Status>::empty());
            assert(self.records@ =~= orig.take(0).filter(p) + orig.skip(0));
        }
        while i < self.records.len()
            invariant
                old(self).wf(),
                self.id_counter == old(self).id_counter,
                orig == old(self).records@,
                p == (|s: Status| s.state != WorkerState::Disconnected),
                0 <= j <= orig.len(),
                self.records@ == orig.take(j).filter(p) + orig.skip(j),
                i as int == orig.take(j).filter(p).len(),
            decreases orig.len() - j,
        {
            proof {
                assert(j < orig.len());
                assert(self.records@[i as int] == orig.skip(j)[0]);
                assert(orig.skip(j)[0] == orig[j]);
                assert(orig.take(j + 1) =~= orig.take(j) + seq![orig[j]]);
                Seq::<Status>::filter_distributes_over_add(orig.take(j), seq![orig[j]], p);
                reveal(Seq::filter);
                assert(Seq::<Status>::empty().filter(p) =~= Seq::<Status>::empty());
                assert(seq![orig[j]].drop_last() =~= Seq::<Status>::empty());
                if p(orig[j]) {
                    assert(seq![orig[j]].filter(p) =~= seq![orig[j]]);
                } else {
                    assert(seq![orig[j]].filter(p) =~= Seq::<Status>::empty());
                }
            }
            if self.records[i].is_disconnected() {
                self.records.remove(i);
                proof {
                    assert(self.records@ =~= orig.take(j + 1).filter(p) + orig.skip(j + 1));
                }
            } else {
                i = i + 1;
                proof {
                    assert(self.records@ =~= orig.take(j + 1).filter(p) + orig.skip(j + 1));
                }
            }
            proof {
                j = j + 1;
            }
        }
        proof {
            assert(j == orig.len()) by {
                if j < orig.len() {
                    assert(self.records@.len() >= orig.skip(j).len());
                }
            }
            assert(orig.take(orig.len() as int) =~= orig);
            assert(orig.skip(orig.len() as int) =~= Seq::<Status>::empty());
            assert(self.records@ =~= orig.filter(p));
            assert forall|k: int| 0 <= k < self.records@.len() implies (
            #[trigger] self.records@[k]).wf() by {
                broadcast use vstd::seq_lib::group_filter_ensures;

                assert(orig.filter(p).len() <= orig.len());
                assert(self.records@[k] == orig.filter(p)[k]);
                lemma_filter_elem_wf(orig, p, k);
            }
        }
    }

    pub fn disconnect(&mut self, id: u32, now_ms: u64)
        requires
            old(self).wf(),
        ensures
            final(self).id_counter == old(self).id_counter,
            final(self).wf(),
            ({
                let k = index_of_id(old(self).records@, id);
                if k == -1 {
                    final(self).records@ == old(self).records@
                } else {
                    &&& final(self).records@.len() == old(self).records@.len()
                    &&& forall|j: int|
                        0 <= j < old(self).records@.len() && j != k ==> final(self).records@[j]
                            == old(self).records@[j]
                    &&& final(self).records@[k] == (Status {
                        state: WorkerState::Disconnected,
                        disconnect_time: Some(now_ms),
                        ..old(self).records@[k]
                    })
                }
            }),
    {
        match self.find_index(id) {
            Some(k) => {
                let mut rec = self.records.remove(k);
                rec.disconnect(now_ms);
                self.records.insert(k, rec);
                proof {
                    assert(forall|j: int|
                        0 <= j < old(self).records@.len() && j != k ==> final(self).records@[j]
                            == old(self).records@[j]);
                }
            },
            None => {},
        }
    }

    /// Read the records under a caller-supplied view function.
    pub fn with_stats<F: Fn(&Vec<Status>) -> V, V>(&self, f: F) -> (r: V)
        requires
            f.requires((&self.records,)),
        ensures
            f.ensures((&self.records,), r),
    {
        f(&self.records)
    }
}

proof fn lemma_index_prefix(rs: Seq<Status>, id: u32, k: int)
    requires
        0 <= k < rs.len(),
        rs[k].id == id,
        forall|j: int| 0 <= j < k ==> (#[trigger] rs[j]).id != id,
    ensures
        index_of_id(rs, id) == k,
    decreases k,
{
    if k > 0 {
        assert(forall|i: int| 0 <= i < rs.drop_first().len() ==> rs.drop_first()[i] == rs[i + 1]);
        lemma_index_prefix(rs.drop_first(), id, k - 1);
    }
}

/// Pruning is a no-op when no session is disconnected.
pub proof fn lemma_prune_noop(rs: Seq<Status>)
    requires
        forall|i: int| 0 <= i < rs.len() ==> (#[trigger] rs[i]).state != WorkerState::Disconnected,
    ensures
        rs.filter(|s: Status| s.state != WorkerState::Disconnected) == rs,
    decreases rs.len(),
{
    reveal(Seq::filter);
    if rs.len() > 0 {
        assert(forall|i: int| 0 <= i < rs.drop_last().len() ==> rs.drop_last()[i] == rs[i]);
        lemma_prune_noop(rs.drop_last());
        assert(rs.filter(|s: Status| s.state != WorkerState::Disconnected) =~= rs);
    } else {
        assert(rs.filter(|s: Status| s.state != WorkerState::Disconnected) =~= rs);
    }
}




/// Every element kept by the prune filter is an element of the
/// original list, so it stays well formed.
proof fn lemma_filter_elem_wf(rs: Seq<Status>, p: spec_fn(Status) -> bool, k: int)
    requires
        forall|i: int| 0 <= i < rs.len() ==> (#[trigger] rs[i]).wf(),
        0 <= k < rs.filter(p).len(),
    ensures
        rs.filter(p)[k].wf(),
    decreases rs.len(),
{
    reveal(Seq::filter);
    if rs.len() > 0 {
        let fl = rs.filter(p);
        let sub = rs.drop_last().filter(p);
        assert(forall|i: int| 0 <= i < rs.drop_last().len() ==> rs.drop_last()[i] == rs[i]);
        if p(rs.last()) {
            assert(fl == sub.push(rs.last()));
            if k < sub.len() {
                lemma_filter_elem_wf(rs.drop_last(), p, k);
                assert(fl[k] == sub[k]);
            } else {
                assert(fl[k] == rs.last());
            }
        } else {
            assert(fl == sub);
            lemma_filter_elem_wf(rs.drop_last(), p, k);
        }
    }
}

} // verus!
