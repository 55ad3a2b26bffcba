//! The worker's command dispatch and task scheduling: reception of
//! Start/Stop/Reset, the bounded-concurrency scheduler with graceful
//! drain, and the per-attempt request preparation.
//!
//! The surrounding event loop performs the waiting (frames, semaphore,
//! task completions); the decisions it acts on are functions of state
//! and event defined and verified here.
use vstd::prelude::*;

use crate::json::str_to_chars;
use crate::json::chars_to_string;
use crate::json::push_lit;
use crate::messages::AttackStrategy;
use crate::messages::Command;
use crate::messages::CommandV;
use crate::messages::Frame;
use crate::messages::RequestMethod;
use crate::messages::HttpVersion;
use crate::messages::RequestSpec;
use crate::messages::headers_view;
use crate::messages::view_opt_string;
use crate::messages::spec_parse_command;
use crate::stats::Stats;
use crate::stats::stats_wf;
use crate::stats::spec_reset;
use crate::stats::spec_start;
use crate::stats::spec_stop;
use crate::stats::StatsModel;

verus! {

// ---------------------------------------------------------------------
// Trusted randomness
// ---------------------------------------------------------------------

/// Relies on rand's thread_rng and gen_range: a uniformly random index
/// below `n`.  Nothing is promised beyond the range.
#[verifier::external_body]
fn random_index(n: usize) -> (r: usize)
    requires
        n > 0,
    ensures
        r < n,
{
    rand::Rng::gen_range(&mut rand::thread_rng(), 0..n)
}

/// Relies on uuid's new_v4 and to_string: a fresh random token in the
/// hyphenated form, 36 characters long.  Nothing is promised of its
/// content.
#[verifier::external_body]
fn fresh_token() -> (r: String)
    ensures
        r@.len() == 36,
{
    uuid::Uuid::new_v4().to_string()
}

// ---------------------------------------------------------------------
// Frame handling
// ---------------------------------------------------------------------

/// What a session ends on: an ill-formed text payload, or a frame kind
/// the protocol does not use.
#[derive(Clone, Copy, PartialEq, Eq, Structural, Debug)]
pub enum SessionError {
    Decode,
    Protocol,
}

/// What the worker's session loop does with one inbound frame.
#[derive(Debug)]
pub enum WorkerAction {
    /// Ping and pong frames are heartbeat traffic; nothing to do.
    Continue,
    /// A close frame ends the session.
    Exit,
    /// A text frame carried a command for the dispatcher.
    Dispatch(Command),
}

/// The command carried by a complete JSON text, if it is one.
pub open spec fn spec_cmd_of_text(s: Seq<char>) -> Option<CommandV> {
    match spec_parse_command(s) {
        Some((c, rest)) => if rest.len() == 0 {
            Some(c)
        } else {
            None
        },
        None => None,
    }
}

/// Decide what one inbound frame means for the worker: heartbeats are
/// ignored, text must decode to a command, close ends the session, and
/// any other frame kind is a protocol violation.
pub fn handle_message(msg: &Frame) -> (r: Result<WorkerAction, SessionError>)
    ensures
        match msg {
            Frame::Ping(_) => r matches Ok(WorkerAction::Continue),
            Frame::Pong(_) => r matches Ok(WorkerAction::Continue),
            Frame::Close => r matches Ok(WorkerAction::Exit),
            Frame::Binary(_) => r matches Err(SessionError::Protocol),
            Frame::Text(t) => match spec_cmd_of_text(t@) {
                Some(cv) => r matches Ok(WorkerAction::Dispatch(c)) && c@ == cv,
                None => r matches Err(SessionError::Decode),
            },
        },
{
    match msg {
        Frame::Ping(_) => Ok(WorkerAction::Continue),
        Frame::Pong(_) => Ok(WorkerAction::Continue),
        Frame::Close => Ok(WorkerAction::Exit),
        Frame::Binary(_) => Err(SessionError::Protocol),
        Frame::Text(t) => match Command::parse_text(t.as_str()) {
            Some(c) => Ok(WorkerAction::Dispatch(c)),
            None => Err(SessionError::Decode),
        },
    }
}

// ---------------------------------------------------------------------
// The command dispatcher
// ---------------------------------------------------------------------

/// What the surrounding executor must do after a dispatch step.
#[derive(Clone, Copy, PartialEq, Eq, Structural, Debug)]
pub enum DispatchAction {
    /// Spawn a scheduler for the new plan; when `signal_prior` holds, a
    /// scheduler was running and its shutdown handle must be fired
    /// first (without awaiting the drain).
    Spawn { signal_prior: bool },
    /// When `await_prior` holds, fire the running scheduler's shutdown
    /// handle and await its drain.  Then, in either case, apply the
    /// command's statistics transition with `Dispatcher::settle`.
    Halt { await_prior: bool },
}

/// Governs at most one in-flight scheduler: `scheduling` says whether
/// one is running.
#[derive(Clone, Copy, PartialEq, Eq, Structural, Debug)]
pub struct Dispatcher {
    pub scheduling: bool,
}

impl Dispatcher {
    pub fn new() -> (d: Dispatcher)
        ensures
            d.scheduling == false,
    {
        Dispatcher { scheduling: false }
    }

    /// One dispatch step.  Start begins the fresh run at dispatch: the
    /// statistics restart before the new scheduler spawns, and a prior
    /// scheduler is signalled but not awaited.  Stop and Reset only
    /// direct the halt here and leave the statistics untouched: the
    /// embedding loop signals and awaits the drain the action asks for,
    /// and then applies the command's transition with `settle`, so that
    /// Stop's elapsed span covers the drain and Reset clears whatever
    /// draining tasks still recorded.
    pub fn step(&mut self, stats: &mut Stats, cmd: &Command, now_ms: u64) -> (a: DispatchAction)
        requires
            stats_wf(old(stats)@),
        ensures
            stats_wf(final(stats)@),
            match cmd@ {
                CommandV::Start { requests, strategy, max_concurrency } => {
                    &&& a == (DispatchAction::Spawn { signal_prior: old(self).scheduling })
                    &&& final(self).scheduling == true
                    &&& final(stats)@ == spec_start(old(stats)@, now_ms)
                },
                CommandV::Stop => {
                    &&& a == (DispatchAction::Halt { await_prior: old(self).scheduling })
                    &&& final(self).scheduling == false
                    &&& final(stats)@ == old(stats)@
                },
                CommandV::Reset => {
                    &&& a == (DispatchAction::Halt { await_prior: old(self).scheduling })
                    &&& final(self).scheduling == false
                    &&& final(stats)@ == old(stats)@
                },
            },
    {
        match cmd {
            Command::Start { .. } => {
                let had = self.scheduling;
                stats.start(now_ms);
                self.scheduling = true;
                DispatchAction::Spawn { signal_prior: had }
            },
            Command::Stop => {
                let had = self.scheduling;
                self.scheduling = false;
                DispatchAction::Halt { await_prior: had }
            },
            Command::Reset => {
                let had = self.scheduling;
                self.scheduling = false;
                DispatchAction::Halt { await_prior: had }
            },
        }
    }

    /// Apply Stop's or Reset's statistics transition, after any drain
    /// the halt action directed: Stop fixes the elapsed span (covering
    /// the drained work) and goes idle; Reset clears everything the
    /// run and its drain recorded.  Both are no-ops on the scheduler
    /// side when none was running.
    pub fn settle(stats: &mut Stats, cmd: &Command, now_ms: u64)
        requires
            stats_wf(old(stats)@),
            !(cmd@ matches CommandV::Start { .. }),
        ensures
            stats_wf(final(stats)@),
            cmd@ matches CommandV::Stop ==> final(stats)@ == spec_stop(old(stats)@, now_ms),
            cmd@ matches CommandV::Reset ==> final(stats)@ == spec_reset(old(stats)@),
    {
        match cmd {
            Command::Stop => stats.stop(now_ms),
            Command::Reset => stats.reset(),
            Command::Start { .. } => {},
        }
    }
}

// ---------------------------------------------------------------------
// The task scheduler
// ---------------------------------------------------------------------

/// The clamped concurrency bound: at least one permit.
pub open spec fn spec_max_tasks(max_concurrency: u32) -> u32 {
    if max_concurrency >= 1 {
        max_concurrency
    } else {
        1u32
    }
}

/// The scheduler's state between events: the plan, the in-order
/// cursor, the wrapping task-id counter, and the permit accounting of
/// the counting semaphore (`permits` free, `in_flight` held).
pub struct Scheduler {
    pub requests: Vec<RequestSpec>,
    pub strategy: AttackStrategy,
    pub cursor: usize,
    pub next_id: u64,
    pub max_tasks: u32,
    pub permits: u32,
    pub in_flight: u32,
}

impl Scheduler {
    /// The plan is nonempty, the cursor stays on it, and every permit
    /// is either free or held by an in-flight task.
    pub open spec fn wf(&self) -> bool {
        &&& self.requests@.len() > 0
        &&& self.cursor < self.requests@.len()
        &&& self.max_tasks >= 1
        &&& self.permits + self.in_flight == self.max_tasks
    }

    /// The scheduler for a plan, or nothing for an empty one: an empty
    /// request list makes a start a no-op, so the run exits at once.
    pub fn try_new(requests: Vec<RequestSpec>, strategy: AttackStrategy, max_concurrency: u32)
        -> (r: Option<Scheduler>)
        ensures
            match r {
                Some(s) => {
                    &&& requests@.len() > 0
                    &&& s.wf()
                    &&& s.requests == requests
                    &&& s.strategy == strategy
                    &&& s.cursor == 0
                    &&& s.next_id == 0
                    &&& s.max_tasks == spec_max_tasks(max_concurrency)
                    &&& s.permits == s.max_tasks
                    &&& s.in_flight == 0
                },
                None => requests@.len() == 0,
            },
    {
        if requests.len() == 0 {
            None
        } else {
            Some(Scheduler::new(requests, strategy, max_concurrency))
        }
    }

    /// A scheduler for a nonempty plan, with all permits free.
    pub fn new(requests: Vec<RequestSpec>, strategy: AttackStrategy, max_concurrency: u32) -> (s:
        Scheduler)
        requires
            requests@.len() > 0,
        ensures
            s.wf(),
            s.requests == requests,
            s.strategy == strategy,
            s.cursor == 0,
            s.next_id == 0,
            s.max_tasks == spec_max_tasks(max_concurrency),
            s.permits == s.max_tasks,
            s.in_flight == 0,
    {
        let max_tasks = if max_concurrency >= 1 {
            max_concurrency
        } else {
            1
        };
        Scheduler {
            requests,
            strategy,
            cursor: 0,
            next_id: 0,
            max_tasks,
            permits: max_tasks,
            in_flight: 0,
        }
    }

    /// Publish the pool gauges: free permits as the current task count,
    /// in-flight tasks as the queue depth, and the permit bound.
    pub fn publish_gauges(&self, stats: &mut Stats)
        requires
            self.wf(),
            stats_wf(old(stats)@),
        ensures
            stats_wf(final(stats)@),
            final(stats)@ == (StatsModel {
                tasks: self.permits,
                task_queue: self.in_flight,
                tasks_max: self.max_tasks,
                ..old(stats)@
            }),
    {
        stats.record_gauges(self.permits, self.in_flight, self.max_tasks);
    }

    /// Admit one task after a permit was acquired: pick the request the
    /// strategy calls for, hand out the next wrapping task id, and move
    /// one permit into flight.  Under the in-order strategy the cursor
    /// walks the plan and wraps at its end.
    pub fn admit_task(&mut self) -> (r: (usize, u64))
        requires
            old(self).wf(),
            old(self).permits > 0,
        ensures
            final(self).wf(),
            final(self).requests == old(self).requests,
            final(self).strategy == old(self).strategy,
            final(self).max_tasks == old(self).max_tasks,
            final(self).permits == old(self).permits - 1,
            final(self).in_flight == old(self).in_flight + 1,
            final(self).next_id == old(self).next_id.wrapping_add(1),
            r.1 == old(self).next_id,
            r.0 < old(self).requests@.len(),
            old(self).strategy == AttackStrategy::InOrder ==> r.0 == old(self).cursor
                && final(self).cursor == ((old(self).cursor + 1) % (
            old(self).requests@.len() as int)),
            old(self).strategy == AttackStrategy::Random ==> final(self).cursor == old(self).cursor,
    {
        let n = self.requests.len();
        let index: usize = match self.strategy {
            AttackStrategy::Random => random_index(n),
            AttackStrategy::InOrder => {
                let i = self.cursor;
                self.cursor = if i + 1 == n {
                    0
                } else {
                    i + 1
                };
                proof {
                    if i + 1 == n {
                        assert((i + 1) % (n as int) == 0) by {
                            vstd::arithmetic::div_mod::lemma_mod_self_0(n as int);
                        }
                    } else {
                        assert((i + 1) % (n as int) == i + 1) by {
                            vstd::arithmetic::div_mod::lemma_small_mod((i + 1) as nat, n as nat);
                        }
                    }
                }
                i
            },
        };
        let id = self.next_id;
        self.next_id = self.next_id.wrapping_add(1);
        self.permits = self.permits - 1;
        self.in_flight = self.in_flight + 1;
        (index, id)
    }

    /// Reap one completed task: its permit returns to the pool.
    pub fn complete_task(&mut self)
        requires
            old(self).wf(),
            old(self).in_flight > 0,
        ensures
            final(self).wf(),
            *final(self) == (Scheduler {
                permits: (old(self).permits + 1) as u32,
                in_flight: (old(self).in_flight - 1) as u32,
                ..*old(self)
            }),
    {
        self.permits = self.permits + 1;
        self.in_flight = self.in_flight - 1;
    }
}

/// Bounded concurrency: in every well-formed scheduler state, the
/// tasks holding a permit never outnumber the permit bound.
pub proof fn lemma_in_flight_bounded(s: Scheduler)
    requires
        s.wf(),
    ensures
        s.in_flight <= s.max_tasks,
        s.permits <= s.max_tasks,
{
}


// ---------------------------------------------------------------------
// Request preparation
// ---------------------------------------------------------------------

/// The first position at or after `i` that holds `c`, or the length.
pub open spec fn char_end(s: Seq<char>, c: char, i: int) -> int
    decreases s.len() - i,
{
    if 0 <= i < s.len() && s[i] != c {
        char_end(s, c, i + 1)
    } else {
        i
    }
}

pub proof fn lemma_char_end(s: Seq<char>, c: char, i: int)
    requires
        0 <= i <= s.len(),
    ensures
        i <= char_end(s, c, i) <= s.len(),
        forall|k: int| i <= k < char_end(s, c, i) ==> s[k] != c,
        char_end(s, c, i) < s.len() ==> s[char_end(s, c, i)] == c,
    decreases s.len() - i,
{
    if 0 <= i < s.len() && s[i] != c {
        lemma_char_end(s, c, i + 1);
    }
}

pub proof fn lemma_char_end_is(s: Seq<char>, c: char, i: int, j: int)
    requires
        0 <= i <= j <= s.len(),
        forall|k: int| i <= k < j ==> s[k] != c,
        j == s.len() || s[j] == c,
    ensures
        char_end(s, c, i) == j,
    decreases j - i,
{
    if i < j {
        lemma_char_end_is(s, c, i + 1, j);
    }
}

/// The first position of `c` at or after `i`, or the length.
pub fn find_char(s: &Vec<char>, c: char, i: usize) -> (r: usize)
    requires
        i <= s.len(),
    ensures
        r as int == char_end(s@, c, i as int),
        r <= s.len(),
{
    let mut k: usize = i;
    while k < s.len() && s[k] != c
        invariant
            i <= k <= s.len(),
            forall|m: int| i <= m < k ==> s@[m] != c,
        decreases s.len() - k,
    {
        k = k + 1;
    }
    proof {
        lemma_char_end_is(s@, c, i as int, k as int);
    }
    k
}

/// Append the characters of `v` between `from` and `to`.
pub fn push_range(out: &mut Vec<char>, v: &Vec<char>, from: usize, to: usize)
    requires
        from <= to <= v.len(),
    ensures
        final(out)@ == old(out)@ + v@.subrange(from as int, to as int),
{
    let mut k: usize = from;
    while k < to
        invariant
            from <= k <= to <= v@.len(),
            out@ == old(out)@ + v@.subrange(from as int, k as int),
        decreases to - k,
    {
        out.push(v[k]);
        proof {
            assert(v@.subrange(from as int, k + 1) =~= v@.subrange(from as int, k as int).push(
                v@[k as int],
            ));
            assert(out@ =~= old(out)@ + v@.subrange(from as int, k + 1));
        }
        k = k + 1;
    }
}

/// The target URL with `field=token` appended to its query string: the
/// pair is added before any fragment, joined with `&` when a query is
/// already present and started with `?` otherwise.
pub open spec fn spec_with_query(url: Seq<char>, field: Seq<char>, token: Seq<char>) -> Seq<
    char,
> {
    let hash = char_end(url, '#', 0);
    let sep: char = if char_end(url, '?', 0) < hash {
        '&'
    } else {
        '?'
    };
    url.take(hash) + seq![sep] + field + seq!['='] + token + url.skip(hash)
}

/// The URL an attempt targets: the plan's URL as it stands, or with a
/// fresh token appended to the query string when the plan asks for one.
pub fn effective_url(rspec: &RequestSpec, token: &str) -> (r: String)
    ensures
        match rspec@.random_querystring {
            None => r@ == rspec@.url,
            Some(field) => r@ == spec_with_query(rspec@.url, field, token@),
        },
{
    match &rspec.random_querystring {
        None => rspec.url.clone(),
        Some(field) => {
            let u = str_to_chars(rspec.url.as_str());
            proof {
                lemma_char_end(u@, '#', 0);
            }
            let hash = find_char(&u, '#', 0);
            let qpos = find_char(&u, '?', 0);
            let sep: char = if qpos < hash {
                '&'
            } else {
                '?'
            };
            let mut out: Vec<char> = Vec::new();
            push_range(&mut out, &u, 0, hash);
            out.push(sep);
            push_lit(&mut out, field.as_str());
            out.push('=');
            push_lit(&mut out, token);
            push_range(&mut out, &u, hash, u.len());
            proof {
                assert(u@.subrange(0, char_end(u@, '#', 0)) =~= u@.take(char_end(u@, '#', 0)));
                assert(u@.subrange(char_end(u@, '#', 0), u@.len() as int) =~= u@.skip(
                    char_end(u@, '#', 0),
                ));
                assert(out@ =~= spec_with_query(rspec@.url, field@, token@));
            }
            chars_to_string(&out)
        },
    }
}

/// Milliseconds clamped into `u64`.
pub fn clamp_millis(ms: u128) -> (r: u64)
    ensures
        ms <= u64::MAX ==> r == ms,
        ms > u64::MAX ==> r == u64::MAX,
{
    if ms > u64::MAX as u128 {
        u64::MAX
    } else {
        ms as u64
    }
}

/// Everything an attempt needs, as plain values: the effective URL,
/// method, version, headers (with the random header added when asked
/// for), and body.
#[derive(Debug)]
pub struct RequestPlan {
    pub url: String,
    pub method: RequestMethod,
    pub version: HttpVersion,
    pub headers: Vec<(String, String)>,
    pub body: Option<String>,
}

/// Assemble the attempt for given tokens.
pub fn plan_request(rspec: &RequestSpec, qs_token: &str, hdr_token: &str) -> (p: RequestPlan)
    ensures
        p.url@ == (match rspec@.random_querystring {
            None => rspec@.url,
            Some(field) => spec_with_query(rspec@.url, field, qs_token@),
        }),
        p.method == rspec.method,
        p.version == rspec.version,
        headers_view(p.headers@) == rspec@.headers + (match rspec@.random_header {
            None => Seq::<(Seq<char>, Seq<char>)>::empty(),
            Some(name) => seq![(name, hdr_token@)],
        }),
        view_opt_string(p.body) == rspec@.body,
{
    let url = effective_url(rspec, qs_token);
    let mut headers: Vec<(String, String)> = Vec::new();
    let mut i: usize = 0;
    while i < rspec.headers.len()
        invariant
            i <= rspec.headers@.len(),
            headers@ == rspec.headers@.take(i as int),
        decreases rspec.headers@.len() - i,
    {
        let k = rspec.headers[i].0.clone();
        let v = rspec.headers[i].1.clone();
        headers.push((k, v));
        proof {
            assert(rspec.headers@.take(i + 1) =~= rspec.headers@.take(i as int).push(
                rspec.headers@[i as int],
            ));
        }
        i = i + 1;
    }
    proof {
        assert(rspec.headers@.take(rspec.headers@.len() as int) =~= rspec.headers@);
    }
    match &rspec.random_header {
        Some(name) => {
            headers.push((name.clone(), hdr_token.to_owned()));
        },
        None => {},
    }
    let body = match &rspec.body {
        Some(b) => Some(b.clone()),
        None => None,
    };
    let p = RequestPlan { url, method: rspec.method, version: rspec.version, headers, body };
    proof {
        assert(headers_view(p.headers@) =~= rspec@.headers + (match rspec@.random_header {
            None => Seq::<(Seq<char>, Seq<char>)>::empty(),
            Some(name) => seq![(name, hdr_token@)],
        }));
    }
    p
}

/// Assemble the attempt with fresh random tokens where the plan asks
/// for them.  The tokens are random: only their length is known.
pub fn prepare_attempt(rspec: &RequestSpec) -> (p: RequestPlan)
    ensures
        p.method == rspec.method,
        p.version == rspec.version,
        view_opt_string(p.body) == rspec@.body,
        rspec@.random_querystring is None ==> p.url@ == rspec@.url,
        rspec@.random_querystring matches Some(field) ==> exists|t: Seq<char>|
            t.len() == 36 && p.url@ == #[trigger] spec_with_query(rspec@.url, field, t),
        rspec@.random_header is None ==> headers_view(p.headers@) == rspec@.headers,
        rspec@.random_header matches Some(name) ==> exists|t: Seq<char>|
            t.len() == 36 && headers_view(p.headers@) == rspec@.headers + #[trigger] seq![
                (name, t),
            ],
{
    let qs = fresh_token();
    let hd = fresh_token();
    let p = plan_request(rspec, qs.as_str(), hd.as_str());
    proof {
        match rspec@.random_querystring {
            Some(field) => {
                assert(p.url@ == spec_with_query(rspec@.url, field, qs@));
            },
            None => {},
        }
        match rspec@.random_header {
            Some(name) => {
                assert(headers_view(p.headers@) == rspec@.headers + seq![(name, hd@)]);
            },
            None => {},
        }
    }
    p
}

} // verus!
