//! The time line of a worker whose requests all take the same time and
//! whose pauses are exact. It shows what the scheduler's decisions amount
//! to over a whole run: how many requests a worker makes, and when it ends.

use crate::scheduler::{next_step, pacing, resumes_at, NANOS_PER_SEC};
use vstd::prelude::*;

verus! {

/// What is left of the run at `start`.
pub open spec fn time_left(deadline: u128, start: int) -> nat {
    if start < deadline {
        (deadline - start) as nat
    } else {
        0
    }
}

/// When the worker starts its next request after one that started at
/// `start` and ended before the deadline.
pub open spec fn next_start(deadline: u128, interval: Option<u128>, latency: u128, start: int) -> int {
    resumes_at(
        next_step(deadline, interval, start as u128, (start + latency) as u128),
        (start + latency) as u128,
    ).unwrap()
}

/// The number of requests that a worker makes from `start` on, each taking
/// `latency`: it makes one, and goes on if that one ended before the deadline.
pub open spec fn requests_from(
    deadline: u128,
    interval: Option<u128>,
    latency: u128,
    start: int,
) -> nat
    decreases time_left(deadline, start),
    when latency > 0 && start >= 0
{
    if start + latency >= deadline {
        1
    } else {
        1 + requests_from(deadline, interval, latency, next_start(deadline, interval, latency, start))
    }
}

/// When the last request of a worker ends that makes requests from `start` on.
pub open spec fn finish_from(
    deadline: u128,
    interval: Option<u128>,
    latency: u128,
    start: int,
) -> int
    decreases time_left(deadline, start),
    when latency > 0 && start >= 0
{
    if start + latency >= deadline {
        start + latency
    } else {
        finish_from(deadline, interval, latency, next_start(deadline, interval, latency, start))
    }
}

/// The longest pause of a worker: its interval, or nothing.
pub open spec fn longest_pause(interval: Option<u128>) -> int {
    match interval {
        Some(i) => i as int,
        None => 0,
    }
}

/// The next request starts when the last one ended or later, and less than
/// the longest pause after the last one ended.
pub proof fn lemma_next_start(deadline: u128, interval: Option<u128>, latency: u128, start: int)
    requires
        latency > 0,
        0 <= start,
        start + latency < deadline,
    ensures
        start + latency <= next_start(deadline, interval, latency, start) <= start + latency
            + longest_pause(interval),
        start < next_start(deadline, interval, latency, start),
        interval is None ==> next_start(deadline, interval, latency, start) == start + latency,
        interval matches Some(i) ==> next_start(deadline, interval, latency, start) == if latency
            < i {
            start + i
        } else {
            start + latency
        },
{
}

/// A worker ends at the deadline or later, and no later than the deadline,
/// its longest pause and the time of one request: a request that is under
/// way at the deadline ends as it would anyway, and a pause that began
/// before the deadline is followed by one more request.
pub proof fn lemma_finish_bounds(deadline: u128, interval: Option<u128>, latency: u128, start: int)
    requires
        latency > 0,
        0 <= start <= deadline + longest_pause(interval),
    ensures
        deadline <= finish_from(deadline, interval, latency, start) <= deadline + longest_pause(
            interval,
        ) + latency,
    decreases time_left(deadline, start),
{
    if start + latency < deadline {
        lemma_next_start(deadline, interval, latency, start);
        lemma_finish_bounds(
            deadline,
            interval,
            latency,
            next_start(deadline, interval, latency, start),
        );
    }
}

/// A run of `duration` seconds whose workers pause for a second at most
/// ends between `duration` seconds and `duration` seconds, the time of one
/// request and one second.
pub proof fn lemma_deadline_respected(duration: u64, interval: Option<u128>, latency: u128)
    requires
        latency > 0,
        longest_pause(interval) <= NANOS_PER_SEC,
    ensures
        duration * NANOS_PER_SEC <= finish_from(
            (duration * NANOS_PER_SEC) as u128,
            interval,
            latency,
            0,
        ) <= duration * NANOS_PER_SEC + latency + NANOS_PER_SEC,
{
    lemma_finish_bounds((duration * NANOS_PER_SEC) as u128, interval, latency, 0);
}

/// A worker that starts later makes no more requests.
pub proof fn lemma_later_start_fewer_requests(
    deadline: u128,
    latency: u128,
    early: int,
    late: int,
)
    requires
        latency > 0,
        0 <= early <= late,
    ensures
        requests_from(deadline, None, latency, early) >= requests_from(
            deadline,
            None,
            latency,
            late,
        ),
    decreases time_left(deadline, early),
{
    if late + latency < deadline {
        lemma_next_start(deadline, None, latency, early);
        lemma_next_start(deadline, None, latency, late);
        lemma_later_start_fewer_requests(deadline, latency, early + latency, late + latency);
    }
}

/// Without a rate a worker makes at least as many requests as with one, in
/// the same time and with requests that take as long.
pub proof fn lemma_unpaced_makes_more(deadline: u128, interval: u128, latency: u128, start: int)
    requires
        latency > 0,
        0 <= start,
    ensures
        requests_from(deadline, None, latency, start) >= requests_from(
            deadline,
            Some(interval),
            latency,
            start,
        ),
    decreases time_left(deadline, start),
{
    if start + latency < deadline {
        lemma_next_start(deadline, None, latency, start);
        lemma_next_start(deadline, Some(interval), latency, start);
        let paced = next_start(deadline, Some(interval), latency, start);
        lemma_unpaced_makes_more(deadline, interval, latency, paced);
        lemma_later_start_fewer_requests(deadline, latency, start + latency, paced);
    }
}

/// A paced worker whose requests are faster than its interval starts one
/// request in each interval: it makes the least number of requests `n`
/// for which the `n`th request, started `n - 1` intervals after the first,
/// ends at the deadline or later.
pub proof fn lemma_paced_requests(deadline: u128, interval: u128, latency: u128, start: int)
    requires
        0 < latency < interval,
        0 <= start,
    ensures
        ({
            let n = requests_from(deadline, Some(interval), latency, start);
            &&& n >= 1
            &&& start + (n - 1) * interval + latency >= deadline
            &&& n >= 2 ==> start + (n - 2) * interval + latency < deadline
        }),
    decreases time_left(deadline, start),
{
    if start + latency < deadline {
        lemma_next_start(deadline, Some(interval), latency, start);
        let later = start + interval;
        lemma_paced_requests(deadline, interval, latency, later);
        let m = requests_from(deadline, Some(interval), latency, later);
        let n = requests_from(deadline, Some(interval), latency, start);
        assert(n == m + 1);
        assert(start + (n - 1) * interval == later + (m - 1) * interval) by (nonlinear_arith)
            requires
                n == m + 1,
                later == start + interval,
        ;
        if m >= 2 {
            assert(start + (n - 2) * interval == later + (m - 2) * interval) by (nonlinear_arith)
                requires
                    n == m + 1,
                    later == start + interval,
            ;
        } else {
            assert((n - 2) * interval == 0) by (nonlinear_arith)
                requires
                    n == 2,
            ;
        }
    } else {
        assert((1 - 1) * interval == 0) by (nonlinear_arith);
    }
}

/// The rate that a paced run reaches: `concurrency` workers, paced to
/// `rate` requests a second together and faster than their interval, make
/// more than `rate * duration` requests in `duration` seconds, and fewer
/// than two more for each worker, but for what the interval loses by being
/// whole nanoseconds.
pub proof fn lemma_paced_rate(concurrency: u64, rate: u64, duration: u64, latency: u128)
    requires
        rate > 0,
        pacing(concurrency, Some(rate)) matches Some(interval) && 0 < latency < interval,
    ensures
        ({
            let interval = pacing(concurrency, Some(rate)).unwrap();
            let n = requests_from((duration * NANOS_PER_SEC) as u128, Some(interval), latency, 0);
            let total = concurrency * n;
            &&& total > rate * duration
            &&& total * NANOS_PER_SEC < (rate * duration + 2 * concurrency) * NANOS_PER_SEC + n
                * rate
        }),
{
    let interval = pacing(concurrency, Some(rate)).unwrap();
    let deadline = (duration * NANOS_PER_SEC) as u128;
    let n = requests_from(deadline, Some(interval), latency, 0);
    lemma_paced_requests(deadline, interval, latency, 0);
    let c = concurrency as int;
    let r = rate as int;
    let d = duration as int;
    let i = interval as int;
    let l = latency as int;
    let g = NANOS_PER_SEC as int;
    let n = n as int;
    // The interval is one second times the workers over the rate, rounded down.
    assert(r * i <= c * g && c * g < r * i + r) by (nonlinear_arith)
        requires
            r > 0,
            i == (c * g) / r,
    ;
    assert(deadline == d * g);
    // More than one request for each interval of the run.
    assert(n * i > d * g) by (nonlinear_arith)
        requires
            (n - 1) * i + l >= d * g,
            l < i,
    ;
    assert(c * n > r * d) by (nonlinear_arith)
        requires
            n * i > d * g,
            r * i <= c * g,
            r > 0,
            g > 0,
            n >= 1,
            i > 0,
            c >= 0,
            d >= 0,
    ;
    // Fewer than two intervals beyond the run.
    assert(n * i < d * g + 2 * i) by (nonlinear_arith)
        requires
            n >= 1,
            l > 0,
            n >= 2 ==> (n - 2) * i + l < d * g,
            d >= 0,
            g > 0,
            i > 0,
    ;
    assert(c * n * g < (r * d + 2 * c) * g + n * r) by (nonlinear_arith)
        requires
            n * i < d * g + 2 * i,
            c * g < r * i + r,
            r * i <= c * g,
            r > 0,
            n >= 1,
            g > 0,
            i > 0,
            c >= 0,
            d >= 0,
    ;
}

/// A paced run comes within five percent of its rate where the run is long
/// enough for its workers: where `rate * duration` is at least fifty times
/// the number of workers, and no worker is asked for more than a million
/// requests a second.
pub proof fn lemma_rate_within_five_percent(
    concurrency: u64,
    rate: u64,
    duration: u64,
    latency: u128,
)
    requires
        rate > 0,
        pacing(concurrency, Some(rate)) matches Some(interval) && 0 < latency < interval,
        50 * concurrency <= rate * duration,
        rate <= 1_000_000 * concurrency,
    ensures
        ({
            let interval = pacing(concurrency, Some(rate)).unwrap();
            let n = requests_from((duration * NANOS_PER_SEC) as u128, Some(interval), latency, 0);
            let total = concurrency * n;
            20 * (rate * duration) <= 20 * total <= 21 * (rate * duration)
        }),
{
    lemma_paced_rate(concurrency, rate, duration, latency);
    let interval = pacing(concurrency, Some(rate)).unwrap();
    let n = requests_from((duration * NANOS_PER_SEC) as u128, Some(interval), latency, 0) as int;
    let c = concurrency as int;
    let r = rate as int;
    // What a worker is asked for in a nanosecond is little beside one request.
    assert(1000 * (n * r) <= (c * n) * 1_000_000_000) by (nonlinear_arith)
        requires
            r <= 1_000_000 * c,
            n >= 0,
    ;
}

/// A paced worker whose run is a whole number of intervals, and whose
/// requests are faster than its interval, makes one request in each
/// interval and one more, which starts at the deadline.
pub proof fn lemma_whole_intervals(deadline: u128, interval: u128, latency: u128, intervals: nat)
    requires
        0 < latency < interval,
        deadline == intervals * interval,
    ensures
        requests_from(deadline, Some(interval), latency, 0) == intervals + 1,
{
    lemma_paced_requests(deadline, interval, latency, 0);
    let n = requests_from(deadline, Some(interval), latency, 0) as int;
    let m = intervals as int;
    let i = interval as int;
    let l = latency as int;
    assert(n - 1 >= m) by (nonlinear_arith)
        requires
            (n - 1) * i + l >= m * i,
            0 < l < i,
    ;
    assert(n - 2 < m) by (nonlinear_arith)
        requires
            n >= 2 ==> (n - 2) * i + l < m * i,
            0 < l < i,
            m >= 0,
    ;
}

/// A paced run of a whole number of intervals makes one request more for
/// each worker than its rate asks for. So it comes within five percent of
/// its rate where it lasts twenty intervals or more: four workers at 50
/// requests a second make 104 requests in two seconds.
pub proof fn lemma_rate_of_whole_intervals(
    concurrency: u64,
    rate: u64,
    duration: u64,
    latency: u128,
)
    requires
        rate > 0,
        pacing(concurrency, Some(rate)) matches Some(interval) && 0 < latency < interval && rate
            * interval == concurrency * NANOS_PER_SEC && (duration * NANOS_PER_SEC) % (
        interval as int) == 0,
    ensures
        ({
            let interval = pacing(concurrency, Some(rate)).unwrap();
            let n = requests_from((duration * NANOS_PER_SEC) as u128, Some(interval), latency, 0);
            let total = concurrency * n;
            &&& total == rate * duration + concurrency
            &&& duration * NANOS_PER_SEC >= 20 * interval ==> 20 * (rate * duration) <= 20 * total
                <= 21 * (rate * duration)
        }),
{
    let interval = pacing(concurrency, Some(rate)).unwrap();
    let deadline = (duration * NANOS_PER_SEC) as u128;
    let c = concurrency as int;
    let r = rate as int;
    let d = duration as int;
    let i = interval as int;
    let g = NANOS_PER_SEC as int;
    let m = (d * g) / i;
    assert(d * g == m * i) by (nonlinear_arith)
        requires
            i > 0,
            (d * g) % i == 0,
            m == (d * g) / i,
    ;
    assert(m >= 0) by (nonlinear_arith)
        requires
            i > 0,
            d * g >= 0,
            m == (d * g) / i,
    ;
    lemma_whole_intervals(deadline, interval, latency, m as nat);
    // The rate times the run is the workers times the intervals.
    assert(r * d == c * m) by (nonlinear_arith)
        requires
            r * i == c * g,
            d * g == m * i,
            i > 0,
            g > 0,
    ;
    assert(c * (m + 1) == c * m + c) by (nonlinear_arith);
    if d * g >= 20 * i {
        assert(m >= 20) by (nonlinear_arith)
            requires
                d * g == m * i,
                d * g >= 20 * i,
                i > 0,
        ;
        assert(c * m >= 20 * c) by (nonlinear_arith)
            requires
                m >= 20,
                c >= 0,
        ;
    }
}

} // verus!
