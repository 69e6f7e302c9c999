//! The scheduler's decisions: how workers are paced, when they stop, and
//! how the outcome of each request is counted.
//!
//! Time is counted in nanoseconds since the start of the run.

use crate::error::RequestError;
use crate::metrics::{Metrics, MetricsOp, MetricsView, lemma_update_keeps_bounds};
use crate::params::{RequestParams, RequestParamsView};
use vstd::prelude::*;

verus! {

pub const NANOS_PER_SEC: u128 = 1_000_000_000;

/// What a worker does after a request.
#[derive(Debug, Clone, Copy, PartialEq, Eq, Structural)]
pub enum Next {
    /// The deadline has passed: the worker ends.
    Stop,
    /// The next request starts at once.
    Request,
    /// The next request starts after a pause of so many nanoseconds.
    Sleep(u128),
}

/// The pause between two starts of a worker's requests that makes
/// `concurrency` workers reach `rate` requests per second together: one
/// second times `concurrency` over `rate`, in whole nanoseconds.
pub open spec fn pacing(concurrency: u64, rate: Option<u64>) -> Option<u128> {
    match rate {
        Some(r) => Some(((concurrency * NANOS_PER_SEC) / (r as int)) as u128),
        None => None,
    }
}

/// The time since a request started, never negative.
pub open spec fn elapsed(loop_start: u128, now: u128) -> u128 {
    if now >= loop_start {
        (now - loop_start) as u128
    } else {
        0
    }
}

/// What a worker does at `now`, after a request that started at
/// `loop_start`: it stops at the deadline; else it pauses for what is left
/// of its interval, if anything is; else it goes on at once.
pub open spec fn next_step(
    deadline: u128,
    interval: Option<u128>,
    loop_start: u128,
    now: u128,
) -> Next {
    if now >= deadline {
        Next::Stop
    } else {
        match interval {
            Some(i) => if elapsed(loop_start, now) < i {
                Next::Sleep((i - elapsed(loop_start, now)) as u128)
            } else {
                Next::Request
            },
            None => Next::Request,
        }
    }
}

/// When the next request starts after the step taken at `now`, if one does.
pub open spec fn resumes_at(next: Next, now: u128) -> Option<int> {
    match next {
        Next::Stop => None,
        Next::Request => Some(now as int),
        Next::Sleep(pause) => Some(now + pause),
    }
}

/// What a worker reports to the sink in the course of a run.
pub ghost enum WorkerEvent {
    /// Its set-up failed.
    InitFailed,
    /// A request of its own succeeded.
    RequestOk,
    /// A request of its own failed.
    RequestFailed,
    /// Its requester accounted for octets or a latency.
    Accounted(MetricsOp),
}

/// Whether an event is a requester's own: requesters account for octets and
/// latencies and leave the request counters alone.
pub open spec fn well_formed(e: WorkerEvent) -> bool {
    match e {
        WorkerEvent::Accounted(op) => op is AddSent || op is AddReceived || op is Record,
        _ => true,
    }
}

/// The sink after an event.
pub open spec fn after_event(m: MetricsView, e: WorkerEvent) -> MetricsView {
    match e {
        WorkerEvent::InitFailed => m.after(MetricsOp::CountFailure),
        WorkerEvent::RequestOk => m.after(MetricsOp::CountRequest).after(MetricsOp::CountSuccess),
        WorkerEvent::RequestFailed => m.after(MetricsOp::CountRequest).after(
            MetricsOp::CountFailure,
        ),
        WorkerEvent::Accounted(op) => m.after(op),
    }
}

/// The sink after a run: after all events of all workers, in the order in
/// which they reached it.
pub open spec fn after_run(events: Seq<WorkerEvent>) -> MetricsView
    decreases events.len(),
{
    if events.len() == 0 {
        MetricsView::fresh()
    } else {
        after_event(after_run(events.drop_last()), events.last())
    }
}

/// How many of the events are of the kind `kind` (the same variant).
pub open spec fn count_of(events: Seq<WorkerEvent>, kind: WorkerEvent) -> nat
    decreases events.len(),
{
    if events.len() == 0 {
        0
    } else {
        count_of(events.drop_last(), kind) + if same_kind(events.last(), kind) {
            1nat
        } else {
            0nat
        }
    }
}

/// Whether two events are of the same kind.
pub open spec fn same_kind(a: WorkerEvent, b: WorkerEvent) -> bool {
    match (a, b) {
        (WorkerEvent::InitFailed, WorkerEvent::InitFailed) => true,
        (WorkerEvent::RequestOk, WorkerEvent::RequestOk) => true,
        (WorkerEvent::RequestFailed, WorkerEvent::RequestFailed) => true,
        (WorkerEvent::Accounted(_), WorkerEvent::Accounted(_)) => true,
        _ => false,
    }
}

/// Whether all events of a run are well formed.
pub open spec fn all_well_formed(events: Seq<WorkerEvent>) -> bool {
    forall|i: int| 0 <= i < events.len() ==> well_formed(#[trigger] events[i])
}

proof fn lemma_count_bounded(events: Seq<WorkerEvent>)
    ensures
        count_of(events, WorkerEvent::InitFailed) + count_of(events, WorkerEvent::RequestOk)
            + count_of(events, WorkerEvent::RequestFailed) <= events.len(),
    decreases events.len(),
{
    if events.len() > 0 {
        lemma_count_bounded(events.drop_last());
    }
}

/// The counters after a run count its events: `total` the requests,
/// `successful` those that succeeded, `failed` those that failed and the
/// workers whose set-up failed. This holds of every run of fewer than 2^64
/// events.
pub proof fn lemma_run_counts(events: Seq<WorkerEvent>)
    requires
        all_well_formed(events),
        events.len() <= u64::MAX,
    ensures
        after_run(events).successful == count_of(events, WorkerEvent::RequestOk),
        after_run(events).failed == count_of(events, WorkerEvent::RequestFailed) + count_of(
            events,
            WorkerEvent::InitFailed,
        ),
        after_run(events).total == count_of(events, WorkerEvent::RequestOk) + count_of(
            events,
            WorkerEvent::RequestFailed,
        ),
    decreases events.len(),
{
    lemma_count_bounded(events);
    if events.len() > 0 {
        let earlier = events.drop_last();
        assert(all_well_formed(earlier)) by {
            assert forall|i: int| 0 <= i < earlier.len() implies well_formed(
                #[trigger] earlier[i],
            ) by {
                assert(earlier[i] == events[i]);
            }
        }
        lemma_run_counts(earlier);
        lemma_count_bounded(earlier);
        assert(well_formed(events[events.len() - 1]));
    }
}

/// After a run every request is counted once as successful or as failed:
/// `total + k == successful + failed`, where `k` workers failed to set up.
/// So where every worker was set up, `total == successful + failed`; and
/// `failed` is never below `k`.
pub proof fn lemma_run_settled(events: Seq<WorkerEvent>)
    requires
        all_well_formed(events),
        events.len() <= u64::MAX,
    ensures
        after_run(events).settled(count_of(events, WorkerEvent::InitFailed)),
        count_of(events, WorkerEvent::InitFailed) == 0 ==> after_run(events).total == after_run(
            events,
        ).successful + after_run(events).failed,
        after_run(events).failed >= count_of(events, WorkerEvent::InitFailed),
{
    lemma_run_counts(events);
}

/// The latency bounds hold after every run: each recorded sample lies
/// between the minimum and the maximum latency.
pub proof fn lemma_run_bounds(events: Seq<WorkerEvent>)
    ensures
        after_run(events).bounds_hold(),
        forall|s: u64| #[trigger]
            after_run(events).samples.contains(s) ==> after_run(events).min_latency <= s
                <= after_run(events).max_latency,
    decreases events.len(),
{
    if events.len() > 0 {
        let m = after_run(events.drop_last());
        lemma_run_bounds(events.drop_last());
        match events.last() {
            WorkerEvent::InitFailed => {
                lemma_update_keeps_bounds(m, MetricsOp::CountFailure);
            },
            WorkerEvent::RequestOk => {
                lemma_update_keeps_bounds(m, MetricsOp::CountRequest);
                lemma_update_keeps_bounds(m.after(MetricsOp::CountRequest), MetricsOp::CountSuccess);
            },
            WorkerEvent::RequestFailed => {
                lemma_update_keeps_bounds(m, MetricsOp::CountRequest);
                lemma_update_keeps_bounds(m.after(MetricsOp::CountRequest), MetricsOp::CountFailure);
            },
            WorkerEvent::Accounted(op) => {
                lemma_update_keeps_bounds(m, op);
            },
        }
    }
}

/// Whether no counter and no byte total wraps around in the course of a run.
pub open spec fn run_fits(events: Seq<WorkerEvent>) -> bool
    decreases events.len(),
{
    if events.len() == 0 {
        true
    } else {
        let m = after_run(events.drop_last());
        &&& run_fits(events.drop_last())
        &&& match events.last() {
            WorkerEvent::InitFailed => m.fits(MetricsOp::CountFailure),
            WorkerEvent::RequestOk => m.fits(MetricsOp::CountRequest) && m.fits(
                MetricsOp::CountSuccess,
            ),
            WorkerEvent::RequestFailed => m.fits(MetricsOp::CountRequest) && m.fits(
                MetricsOp::CountFailure,
            ),
            WorkerEvent::Accounted(op) => m.fits(op),
        }
    }
}

/// Of two observations of the sink in the course of a run, the later one
/// shows no counter and no byte total below the earlier one.
pub proof fn lemma_run_monotonic(events: Seq<WorkerEvent>, i: int, j: int)
    requires
        run_fits(events),
        0 <= i <= j <= events.len(),
    ensures
        after_run(events.take(i)).counters_le(after_run(events.take(j))),
    decreases events.len(),
{
    if j == events.len() {
        assert(events.take(j) =~= events);
        if i < j {
            let earlier = events.drop_last();
            lemma_run_monotonic(earlier, i, j - 1);
            assert(earlier.take(i) =~= events.take(i));
            assert(earlier.take(j - 1) =~= earlier);
        }
    } else {
        let earlier = events.drop_last();
        lemma_run_monotonic(earlier, i, j);
        assert(earlier.take(i) =~= events.take(i));
        assert(earlier.take(j) =~= events.take(j));
    }
}

/// A worker without a rate never starts its next request later than it
/// would with one, and never pauses.
pub proof fn lemma_unpaced_resumes_first(
    deadline: u128,
    interval: u128,
    loop_start: u128,
    now: u128,
)
    ensures
        !(next_step(deadline, None, loop_start, now) is Sleep),
        next_step(deadline, None, loop_start, now) is Stop <==> next_step(
            deadline,
            Some(interval),
            loop_start,
            now,
        ) is Stop,
        now < deadline ==> resumes_at(next_step(deadline, None, loop_start, now), now).unwrap()
            <= resumes_at(next_step(deadline, Some(interval), loop_start, now), now).unwrap(),
{
}

/// A paced worker that was faster than its interval starts its next request
/// exactly one interval after the last one; a slower one goes on at once.
pub proof fn lemma_paced_period(deadline: u128, interval: u128, loop_start: u128, now: u128)
    requires
        loop_start <= now < deadline,
    ensures
        resumes_at(next_step(deadline, Some(interval), loop_start, now), now) == Some(
            if now - loop_start < interval {
                loop_start + interval
            } else {
                now as int
            },
        ),
{
}

/// Where a worker stands.
#[derive(Debug, Clone, Copy, PartialEq, Eq, Structural)]
pub enum Phase {
    /// Its requester is being set up.
    Starting,
    /// It issues requests.
    Running,
    /// It has ended.
    Stopped,
}

/// What the program tells a worker.
#[derive(Debug, Clone, Copy)]
pub enum Event<'a> {
    /// The requester's set-up has ended with this result.
    SetUp(&'a Result<(), RequestError>),
    /// The request that started at `started` has ended at `now` with this result.
    Request { result: &'a Result<(), RequestError>, started: u128, now: u128 },
}

/// The decisions of one worker: the program does the work on the wire and
/// reports each outcome; the worker counts it and says what comes next.
#[derive(Debug, Clone, Copy)]
pub struct Worker {
    deadline: u128,
    interval: Option<u128>,
    phase: Phase,
}

/// What an event means to a worker: the phase it moves to, what it does
/// next and what the sink is given.
///
/// A worker that starts goes on to its first request if the set-up
/// succeeded; if not, it counts one failure and ends. A worker that runs
/// counts the request, then looks at the deadline: so every request that
/// was started is counted, also one that ends after the deadline. A worker
/// that has ended, or that is told of something it did not ask for, ends
/// and counts nothing.
pub open spec fn worker_step(
    deadline: u128,
    interval: Option<u128>,
    phase: Phase,
    event: Event,
    m: MetricsView,
) -> (Phase, Next, MetricsView) {
    match (phase, event) {
        (Phase::Starting, Event::SetUp(result)) => if *result is Ok {
            (Phase::Running, Next::Request, m)
        } else {
            (Phase::Stopped, Next::Stop, after_event(m, WorkerEvent::InitFailed))
        },
        (Phase::Running, Event::Request { result, started, now }) => {
            let next = next_step(deadline, interval, started, now);
            let counted = after_event(
                m,
                if *result is Ok {
                    WorkerEvent::RequestOk
                } else {
                    WorkerEvent::RequestFailed
                },
            );
            (
                if next is Stop {
                    Phase::Stopped
                } else {
                    Phase::Running
                },
                next,
                counted,
            )
        },
        _ => (Phase::Stopped, Next::Stop, m),
    }
}

impl Worker {
    /// When the worker stops starting requests.
    pub closed spec fn deadline(&self) -> u128 {
        self.deadline
    }

    /// The pause between two starts of its requests, if it is paced.
    pub closed spec fn interval(&self) -> Option<u128> {
        self.interval
    }

    /// Where the worker stands.
    pub closed spec fn phase(&self) -> Phase {
        self.phase
    }

    /// Where the worker stands.
    pub fn current_phase(&self) -> (p: Phase)
        ensures
            p == self.phase(),
    {
        self.phase
    }

    /// Takes note of an event: counts it in `metrics` and says what the
    /// worker does next.
    pub fn step(&mut self, metrics: &mut Metrics, event: Event) -> (next: Next)
        ensures
            final(self).deadline() == old(self).deadline(),
            final(self).interval() == old(self).interval(),
            (final(self).phase(), next, final(metrics)@) == worker_step(
                old(self).deadline(),
                old(self).interval(),
                old(self).phase(),
                event,
                old(metrics)@,
            ),
    {
        match (self.phase, event) {
            (Phase::Starting, Event::SetUp(result)) => {
                if Scheduler::handle_init_result(metrics, result) {
                    self.phase = Phase::Running;
                    Next::Request
                } else {
                    self.phase = Phase::Stopped;
                    Next::Stop
                }
            },
            (Phase::Running, Event::Request { result, started, now }) => {
                Scheduler::handle_request_result(metrics, result);
                let next = next_after(self.deadline, self.interval, started, now);
                if let Next::Stop = next {
                    self.phase = Phase::Stopped;
                }
                next
            },
            _ => {
                self.phase = Phase::Stopped;
                Next::Stop
            },
        }
    }
}

/// What a worker does at `now` after a request that started at `loop_start`.
pub fn next_after(deadline: u128, interval: Option<u128>, loop_start: u128, now: u128) -> (next:
    Next)
    ensures
        next == next_step(deadline, interval, loop_start, now),
{
    if now >= deadline {
        return Next::Stop;
    }
    match interval {
        Some(i) => {
            let spent = if now >= loop_start {
                now - loop_start
            } else {
                0
            };
            if spent < i {
                Next::Sleep(i - spent)
            } else {
                Next::Request
            }
        },
        None => Next::Request,
    }
}

/// A run's settings.
#[derive(Debug)]
pub struct Scheduler {
    concurrency: u64,
    duration: u64,
    rate: Option<u64>,
    timeout: u64,
    show_progress: bool,
    request_params: RequestParams,
}

pub ghost struct SchedulerView {
    pub concurrency: u64,
    pub duration: u64,
    pub rate: Option<u64>,
    pub timeout: u64,
    pub show_progress: bool,
    pub request_params: RequestParamsView,
}

impl View for Scheduler {
    type V = SchedulerView;

    closed spec fn view(&self) -> SchedulerView {
        SchedulerView {
            concurrency: self.concurrency,
            duration: self.duration,
            rate: self.rate,
            timeout: self.timeout,
            show_progress: self.show_progress,
            request_params: self.request_params@,
        }
    }
}

impl Scheduler {
    /// The settings of a run: `concurrency` workers for `duration` seconds,
    /// paced to `rate` requests per second together if a rate is given, each
    /// request with a timeout of `timeout` seconds.
    pub fn new(
        concurrency: u64,
        duration: u64,
        rate: Option<u64>,
        timeout: u64,
        show_progress: bool,
        request_params: RequestParams,
    ) -> (s: Self)
        ensures
            s@ == (SchedulerView {
                concurrency,
                duration,
                rate,
                timeout,
                show_progress,
                request_params: request_params@,
            }),
    {
        Scheduler { concurrency, duration, rate, timeout, show_progress, request_params }
    }

    /// The number of workers.
    pub fn concurrency(&self) -> (n: u64)
        ensures
            n == self@.concurrency,
    {
        self.concurrency
    }

    /// The timeout of each request, in seconds.
    pub fn timeout(&self) -> (t: u64)
        ensures
            t == self@.timeout,
    {
        self.timeout
    }

    /// The request parameters for one more worker.
    pub fn worker_params(&self) -> (p: RequestParams)
        ensures
            p@ == self@.request_params,
    {
        self.request_params.clone()
    }

    /// How often the progress indicator advances, once a second: once for
    /// each second of the run where progress is shown, else never.
    pub fn progress_ticks(&self) -> (n: u64)
        ensures
            n == if self@.show_progress {
                self@.duration
            } else {
                0
            },
    {
        if self.show_progress {
            self.duration
        } else {
            0
        }
    }

    /// When workers stop starting requests.
    pub fn deadline(&self) -> (d: u128)
        ensures
            d == self@.duration * NANOS_PER_SEC,
    {
        self.duration as u128 * NANOS_PER_SEC
    }

    /// The pause between two starts of a worker's requests, if the run has a
    /// rate.
    pub fn pacing_interval(&self) -> (i: Option<u128>)
        requires
            self@.rate != Some(0u64),
        ensures
            i == pacing(self@.concurrency, self@.rate),
    {
        match self.rate {
            Some(r) => Some(self.concurrency as u128 * NANOS_PER_SEC / r as u128),
            None => None,
        }
    }

    /// Counts the outcome of a worker's set-up: a failure counts once as
    /// failed and ends the worker. Returns whether the worker goes on.
    pub fn handle_init_result(metrics: &mut Metrics, result: &Result<(), RequestError>) -> (go_on:
        bool)
        ensures
            go_on == (*result is Ok),
            final(metrics)@ == if *result is Ok {
                old(metrics)@
            } else {
                after_event(old(metrics)@, WorkerEvent::InitFailed)
            },
    {
        match result {
            Ok(()) => true,
            Err(_) => {
                metrics.increment_failed_requests();
                false
            },
        }
    }

    /// Counts the outcome of a request: once in the total, then once as
    /// successful or as failed.
    pub fn handle_request_result(metrics: &mut Metrics, result: &Result<(), RequestError>)
        ensures
            final(metrics)@ == after_event(
                old(metrics)@,
                if *result is Ok {
                    WorkerEvent::RequestOk
                } else {
                    WorkerEvent::RequestFailed
                },
            ),
    {
        metrics.increment_total_requests();
        match result {
            Ok(()) => {
                metrics.increment_successful_requests();
            },
            Err(_) => {
                metrics.increment_failed_requests();
            },
        }
    }

    /// A worker of this run, before its set-up.
    pub fn worker(&self) -> (w: Worker)
        requires
            self@.rate != Some(0u64),
        ensures
            w.deadline() == self@.duration * NANOS_PER_SEC,
            w.interval() == pacing(self@.concurrency, self@.rate),
            w.phase() == Phase::Starting,
    {
        Worker {
            deadline: self.deadline(),
            interval: self.pacing_interval(),
            phase: Phase::Starting,
        }
    }

    /// What a worker does at `now` after a request that started at
    /// `loop_start`, with the pause `interval` between starts.
    pub fn next(&self, interval: Option<u128>, loop_start: u128, now: u128) -> (next: Next)
        ensures
            next == next_step((self@.duration * NANOS_PER_SEC) as u128, interval, loop_start, now),
    {
        next_after(self.deadline(), interval, loop_start, now)
    }
}

} // verus!
