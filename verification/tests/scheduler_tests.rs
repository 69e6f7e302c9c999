use hammerload::error::RequestError;
use hammerload::metrics::Metrics;
use hammerload::params::{RequestParams, WebsocketParams};
use hammerload::report::{align_left, align_right, clamp, report_lines, Figures, Quantiles};
use hammerload::scheduler::{next_after, Event, Next, Phase, Scheduler};

fn scheduler(concurrency: u64, duration: u64, rate: Option<u64>, progress: bool) -> Scheduler {
    let params =
        RequestParams::Websocket(WebsocketParams { url: "ws://h/".to_string(), data: "x".to_string() });
    Scheduler::new(concurrency, duration, rate, 5, progress, params)
}

#[test]
fn pacing_interval_is_concurrency_over_rate() {
    // Four workers at 50 requests a second together: 12.5 a second each.
    assert_eq!(scheduler(4, 2, Some(50), false).pacing_interval(), Some(80_000_000));
    assert_eq!(scheduler(1, 2, Some(1), false).pacing_interval(), Some(1_000_000_000));
    assert_eq!(scheduler(1, 2, Some(3), false).pacing_interval(), Some(333_333_333));
    assert_eq!(scheduler(0, 2, Some(3), false).pacing_interval(), Some(0));
    assert_eq!(
        scheduler(u64::MAX, 2, Some(1), false).pacing_interval(),
        Some(u64::MAX as u128 * 1_000_000_000)
    );
    assert_eq!(scheduler(4, 2, None, false).pacing_interval(), None);
}

#[test]
fn settings_are_kept() {
    let s = scheduler(4, 10, Some(50), true);
    assert_eq!(s.concurrency(), 4);
    assert_eq!(s.timeout(), 5);
    assert_eq!(s.deadline(), 10_000_000_000);
    assert_eq!(s.progress_ticks(), 10);
    assert_eq!(scheduler(4, 10, None, false).progress_ticks(), 0);
    assert_eq!(scheduler(1, u64::MAX, None, false).deadline(), u64::MAX as u128 * 1_000_000_000);
    match s.worker_params() {
        RequestParams::Websocket(p) => {
            assert_eq!(p.url, "ws://h/");
            assert_eq!(p.data, "x");
        }
        _ => panic!("the parameters changed their protocol"),
    }
}

#[test]
fn worker_stops_at_the_deadline() {
    let s = scheduler(4, 2, Some(50), false);
    let interval = s.pacing_interval();
    assert_eq!(s.next(interval, 1_990_000_000, 2_000_000_000), Next::Stop);
    assert_eq!(s.next(interval, 1_990_000_000, 2_500_000_000), Next::Stop);
    assert_eq!(s.next(None, 1_990_000_000, 2_000_000_000), Next::Stop);
    assert_eq!(scheduler(1, 0, None, false).next(None, 0, 0), Next::Stop);
}

#[test]
fn worker_pauses_for_the_rest_of_its_interval() {
    let s = scheduler(4, 2, Some(50), false);
    let interval = s.pacing_interval();
    assert_eq!(s.next(interval, 100_000_000, 110_000_000), Next::Sleep(70_000_000));
    assert_eq!(s.next(interval, 100_000_000, 100_000_000), Next::Sleep(80_000_000));
    assert_eq!(s.next(interval, 100_000_000, 179_999_999), Next::Sleep(1));
    assert_eq!(s.next(interval, 100_000_000, 180_000_000), Next::Request);
    assert_eq!(s.next(interval, 100_000_000, 500_000_000), Next::Request);
    // A clock that went back counts as no time spent.
    assert_eq!(s.next(interval, 100_000_000, 90_000_000), Next::Sleep(80_000_000));
}

#[test]
fn worker_without_a_rate_never_pauses() {
    let s = scheduler(4, 2, None, false);
    assert_eq!(s.next(None, 100_000_000, 110_000_000), Next::Request);
    assert_eq!(s.next(None, 0, 1_999_999_999), Next::Request);
}

#[test]
fn request_outcomes_are_counted() {
    let mut m = Metrics::new();
    Scheduler::handle_request_result(&mut m, &Ok(()));
    Scheduler::handle_request_result(&mut m, &Err(RequestError::Timeout));
    Scheduler::handle_request_result(&mut m, &Ok(()));
    Scheduler::handle_request_result(&mut m, &Err(RequestError::Network));
    Scheduler::handle_request_result(&mut m, &Err(RequestError::GrpcError("x".to_string())));
    assert_eq!(m.total_requests(), 5);
    assert_eq!(m.successful_requests(), 2);
    assert_eq!(m.failed_requests(), 3);
    assert_eq!(m.total_requests(), m.successful_requests() + m.failed_requests());
}

#[test]
fn a_failed_set_up_counts_once_as_failed() {
    let mut m = Metrics::new();
    // Two of five workers cannot be set up; the other three make four requests each.
    let mut running = 0;
    for worker in 0..5 {
        let result = if worker < 2 {
            Err(RequestError::ConnectionError("refused".to_string()))
        } else {
            Ok(())
        };
        if Scheduler::handle_init_result(&mut m, &result) {
            running += 1;
            for request in 0..4 {
                let outcome = if request == 0 { Err(RequestError::Timeout) } else { Ok(()) };
                Scheduler::handle_request_result(&mut m, &outcome);
            }
        }
    }
    assert_eq!(running, 3);
    assert_eq!(m.total_requests(), 12);
    assert_eq!(m.successful_requests(), 9);
    assert_eq!(m.failed_requests(), 5);
    assert!(m.failed_requests() >= 2);
    assert_eq!(m.total_requests() + 2, m.successful_requests() + m.failed_requests());
}

#[test]
fn every_request_times_out() {
    let mut m = Metrics::new();
    for _ in 0..8 {
        Scheduler::handle_request_result(&mut m, &Err(RequestError::Timeout));
    }
    assert_eq!(m.successful_requests(), 0);
    assert_eq!(m.failed_requests(), m.total_requests());
}

#[test]
fn columns_are_filled_with_spaces() {
    assert_eq!(align_left("42", 10), "42        ");
    assert_eq!(align_right("42", 10), "        42");
    assert_eq!(align_left("0123456789", 10), "0123456789");
    assert_eq!(align_right("0123456789ab", 10), "0123456789ab");
    assert_eq!(align_left("", 3), "   ");
    assert_eq!(align_right("µs", 4), "  µs");
}

fn figures() -> Figures {
    Figures {
        requests_per_second: "1.50".to_string(),
        success_percent: "66.67".to_string(),
        failure_percent: "33.33".to_string(),
        sent: "27 B".to_string(),
        sent_per_second: "13.5 B".to_string(),
        received: "1.00 KB".to_string(),
        received_per_second: "512 B".to_string(),
    }
}

#[test]
fn report_has_fixed_lines() {
    let mut m = Metrics::new();
    Scheduler::handle_request_result(&mut m, &Ok(()));
    Scheduler::handle_request_result(&mut m, &Ok(()));
    Scheduler::handle_request_result(&mut m, &Err(RequestError::Network));
    m.record_latency(900);
    m.record_latency(12_000);
    m.record_latency(2_000_000);
    m.record_latency(61_000_000);
    let q = Quantiles {
        p50: 900,
        p90: 12_007,
        p95: 12_007,
        p99: 12_007,
        p99_9: 2_000_000,
        p99_99: 61_000_000,
    };
    let lines = report_lines(&m, &q, &figures());
    let expected = vec![
        "",
        "Requests:......................3                1.50/s",
        "Requests succeded:.............2                66.67%",
        "Requests failed:...............1                33.33%",
        "Data sent:.....................27 B           13.5 B/s",
        "Data received:.................1.00 KB         512 B/s",
        "Latencies:",
        "   Min:........................900µs",
        "   P(50):......................900µs",
        "   P(90):......................12ms",
        "   P(95):......................12ms",
        "   P(99):......................12ms",
        "   P(99.9):....................2s",
        "   P(99.99):...................1m",
        "   Max:........................1m",
    ];
    assert_eq!(lines, expected);
}

#[test]
fn reported_quantiles_lie_between_the_latency_bounds() {
    let mut m = Metrics::new();
    m.record_latency(10_001);
    // The histogram gives the top of the sample's bin, which is above the sample.
    let q = Quantiles {
        p50: 10_007,
        p90: 10_007,
        p95: 10_007,
        p99: 10_007,
        p99_9: 10_007,
        p99_99: 10_007,
    };
    let lines = report_lines(&m, &q, &figures());
    for line in &lines[7..15] {
        assert!(line.ends_with("10ms"));
    }
    let settled = q.settle(m.min_latency(), m.max_latency());
    assert_eq!(settled.p50, 10_001);
    assert_eq!(settled.p99_99, 10_001);
}

#[test]
fn quantiles_are_settled_in_ascending_order() {
    let q = Quantiles { p50: 5, p90: 400, p95: 300, p99: 9_000, p99_9: 20, p99_99: 700 };
    assert_eq!(
        q.settle(10, 1_000),
        Quantiles { p50: 10, p90: 400, p95: 400, p99: 1_000, p99_9: 1_000, p99_99: 1_000 }
    );
    let fine = Quantiles { p50: 10, p90: 20, p95: 20, p99: 30, p99_9: 40, p99_99: 1_000 };
    assert_eq!(fine.settle(10, 1_000), fine);
    // Without a sample the bounds are empty and nothing is changed.
    assert_eq!(q.settle(u64::MAX, 0), q);
    assert_eq!(clamp(5, 10, 20), 10);
    assert_eq!(clamp(15, 10, 20), 15);
    assert_eq!(clamp(25, 10, 20), 20);
}

#[test]
fn report_of_a_run_without_requests_shows_zero_rates() {
    let m = Metrics::new();
    let q = Quantiles { p50: 0, p90: 0, p95: 0, p99: 0, p99_9: 0, p99_99: 0 };
    let mut f = figures();
    f.requests_per_second = "NaN".to_string();
    f.success_percent = "NaN".to_string();
    f.failure_percent = "NaN".to_string();
    let lines = report_lines(&m, &q, &f);
    assert_eq!(lines[1], "Requests:......................0                0.00/s");
    assert_eq!(lines[2], "Requests succeded:.............0                 0.00%");
    assert_eq!(lines[3], "Requests failed:...............0                 0.00%");
    assert_eq!(lines[7], "   Min:........................5124095576h");
    assert_eq!(lines[14], "   Max:........................0µs");
    assert_eq!(lines.len(), 15);
}

#[test]
fn worker_whose_set_up_fails_ends_with_one_failure() {
    let mut m = Metrics::new();
    let mut w = scheduler(4, 2, Some(50), false).worker();
    assert_eq!(w.current_phase(), Phase::Starting);
    let failed = Err(RequestError::ConnectionError("refused".to_string()));
    assert_eq!(w.step(&mut m, Event::SetUp(&failed)), Next::Stop);
    assert_eq!(w.current_phase(), Phase::Stopped);
    assert_eq!(m.failed_requests(), 1);
    assert_eq!(m.total_requests(), 0);
    // A worker that has ended counts nothing more.
    let ok = Ok(());
    assert_eq!(w.step(&mut m, Event::Request { result: &ok, started: 0, now: 5 }), Next::Stop);
    assert_eq!(m.total_requests(), 0);
    assert_eq!(m.successful_requests(), 0);
}

#[test]
fn worker_counts_each_request_and_then_looks_at_the_deadline() {
    let mut m = Metrics::new();
    let mut w = scheduler(4, 2, Some(50), false).worker();
    let ok = Ok(());
    let timeout = Err(RequestError::Timeout);
    assert_eq!(w.step(&mut m, Event::SetUp(&ok)), Next::Request);
    assert_eq!(w.current_phase(), Phase::Running);
    assert_eq!(m.total_requests(), 0);
    assert_eq!(
        w.step(&mut m, Event::Request { result: &ok, started: 0, now: 10_000_000 }),
        Next::Sleep(70_000_000)
    );
    assert_eq!(
        w.step(&mut m, Event::Request { result: &timeout, started: 80_000_000, now: 1_080_000_000 }),
        Next::Request
    );
    // The request that ends after the deadline is counted all the same.
    assert_eq!(
        w.step(&mut m, Event::Request { result: &ok, started: 1_990_000_000, now: 2_000_000_001 }),
        Next::Stop
    );
    assert_eq!(w.current_phase(), Phase::Stopped);
    assert_eq!(m.total_requests(), 3);
    assert_eq!(m.successful_requests(), 2);
    assert_eq!(m.failed_requests(), 1);
}

#[test]
fn worker_told_of_a_request_before_its_set_up_ends() {
    let mut m = Metrics::new();
    let mut w = scheduler(1, 2, None, false).worker();
    let ok = Ok(());
    assert_eq!(w.step(&mut m, Event::Request { result: &ok, started: 0, now: 5 }), Next::Stop);
    assert_eq!(w.current_phase(), Phase::Stopped);
    assert_eq!(m.total_requests(), 0);
}

#[test]
fn paced_workers_reach_their_rate() {
    // Four workers, 50 requests a second together, two seconds, requests of 10 ms.
    let deadline = 2_000_000_000u128;
    let interval = scheduler(4, 2, Some(50), false).pacing_interval();
    let latency = 10_000_000u128;
    let mut total = 0u64;
    for _ in 0..4 {
        let mut start = 0u128;
        loop {
            total += 1;
            let end = start + latency;
            match next_after(deadline, interval, start, end) {
                Next::Stop => break,
                Next::Request => start = end,
                Next::Sleep(pause) => start = end + pause,
            }
        }
    }
    assert_eq!(total, 104);
    assert!((90..=110).contains(&total));
}

#[test]
fn a_run_without_a_rate_makes_no_fewer_requests() {
    let deadline = 2_000_000_000u128;
    let latency = 10_000_000u128;
    let count = |interval: Option<u128>| {
        let mut n = 0u64;
        let mut start = 0u128;
        loop {
            n += 1;
            let end = start + latency;
            match next_after(deadline, interval, start, end) {
                Next::Stop => break,
                Next::Request => start = end,
                Next::Sleep(pause) => start = end + pause,
            }
        }
        (n, start + latency)
    };
    let (unpaced, unpaced_end) = count(None);
    let (paced, paced_end) = count(Some(80_000_000));
    assert_eq!(unpaced, 200);
    assert_eq!(paced, 26);
    assert!(unpaced >= paced);
    // Both end at the deadline or later, and within a second and a request of it.
    assert_eq!(unpaced_end, 2_000_000_000);
    assert_eq!(paced_end, 2_010_000_000);
    for end in [unpaced_end, paced_end] {
        assert!(deadline <= end && end <= deadline + latency + 1_000_000_000);
    }
}

fn requests_of_a_run(concurrency: u64, rate: u64, duration: u64, latency: u128) -> u64 {
    let s = scheduler(concurrency, duration, Some(rate), false);
    let interval = s.pacing_interval();
    let mut total = 0u64;
    for _ in 0..concurrency {
        let mut start = 0u128;
        loop {
            total += 1;
            let end = start + latency;
            match next_after(s.deadline(), interval, start, end) {
                Next::Stop => break,
                Next::Request => start = end,
                Next::Sleep(pause) => start = end + pause,
            }
        }
    }
    total
}

#[test]
fn a_long_run_comes_within_five_percent_of_its_rate() {
    // One worker, 100 requests a second, ten seconds, requests of 1 ms.
    let total = requests_of_a_run(1, 100, 10, 1_000_000);
    assert_eq!(total, 1_001);
    assert!(20 * 1_000 <= 20 * total && 20 * total <= 21 * 1_000);
    // Three workers, 7 requests a second, 60 seconds: the interval is no whole number.
    let total = requests_of_a_run(3, 7, 60, 5_000_000);
    assert_eq!(total, 423);
    assert!(20 * 420 <= 20 * total && 20 * total <= 21 * 420);
}

#[test]
fn a_short_run_of_many_workers_overshoots_its_rate() {
    // Six workers, 50 requests a second, two seconds: each makes 18 requests.
    let total = requests_of_a_run(6, 50, 2, 10_000_000);
    assert_eq!(total, 108);
}

#[test]
fn a_run_of_whole_intervals_makes_one_request_more_for_each_worker() {
    // Four workers, 50 requests a second, two seconds: 25 intervals of 80 ms.
    assert_eq!(requests_of_a_run(4, 50, 2, 10_000_000), 100 + 4);
    assert_eq!(requests_of_a_run(4, 50, 2, 79_999_999), 100 + 4);
    // Five workers, 100 requests a second, one second: 20 intervals of 50 ms.
    let total = requests_of_a_run(5, 100, 1, 1_000);
    assert_eq!(total, 100 + 5);
    assert!(20 * 100 <= 20 * total && 20 * total <= 21 * 100);
}
