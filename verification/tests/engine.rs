use benoop::config::{Config, RequestConfig};
use benoop::error::Error;
use benoop::reporter::percentile_table;
use benoop::runner::{
    check_response, collect_results, plan_requests, run_with_responses, status_accepted,
    worker_step, TimedResult, WorkerAction, WorkerEvent, WorkerState,
};
use benoop::stats::{percentile, sort_durations};

fn endpoint(url: &str, weight: i32) -> RequestConfig {
    RequestConfig { url: String::from(url), weight }
}

fn single_endpoint_config(concurrent: usize, total: usize) -> Config {
    Config { concurrent, total, requests: vec![endpoint("http://a", 1)] }
}

/// Drives the worker state machine over one planned request with the
/// given response, returning the recorded result or the abort error.
fn simulate_request(endpoint_index: usize, status_code: u16, elapsed_micros: u64) -> Result<
    TimedResult,
    Error,
> {
    let (state, action) = worker_step(
        WorkerState::Idle,
        WorkerEvent::Dequeued { endpoint_index },
    );
    assert_eq!(state, WorkerState::Fetching { endpoint_index });
    assert_eq!(action, WorkerAction::IssueRequest { endpoint_index });
    let (state, action) = worker_step(state, WorkerEvent::Response { status_code, elapsed_micros });
    match action {
        WorkerAction::Record { result } => {
            assert_eq!(state, WorkerState::Idle);
            Ok(result)
        }
        WorkerAction::Abort { error } => {
            assert_eq!(state, WorkerState::Failed);
            Err(error)
        }
        _ => panic!("a response can only be recorded or abort the run"),
    }
}

#[test]
fn status_codes_outside_the_accepted_set_are_fatal() {
    assert!(status_accepted(200));
    assert!(status_accepted(201));
    assert!(status_accepted(204));
    assert!(!status_accepted(202));
    assert!(!status_accepted(404));
    assert!(!status_accepted(500));

    assert_eq!(check_response(3, 204), Ok(()));
    assert_eq!(
        check_response(3, 500),
        Err(Error::UnexpectedStatusCode { status_code: 500, endpoint_index: 3 })
    );
}

#[test]
fn worker_stops_cleanly_on_closed_queue() {
    let (state, action) = worker_step(WorkerState::Idle, WorkerEvent::QueueClosed);
    assert_eq!(state, WorkerState::Stopped);
    assert_eq!(action, WorkerAction::Exit);
}

#[test]
fn worker_aborts_on_transport_failure() {
    let (state, action) = worker_step(
        WorkerState::Fetching { endpoint_index: 1 },
        WorkerEvent::TransportFailed,
    );
    assert_eq!(state, WorkerState::Failed);
    assert_eq!(action, WorkerAction::Abort { error: Error::RequestFailed { endpoint_index: 1 } });
}

/// Four requests over two workers against one endpoint, every response
/// 200 after ten milliseconds: four entries of ten milliseconds in the
/// single bucket, and every percentile reads ten milliseconds.
#[test]
fn all_success_run_collects_every_sample() {
    let config = single_endpoint_config(2, 4);
    let plan = plan_requests(&config);
    assert_eq!(plan.len(), 4);

    let mut timed: Vec<TimedResult> = Vec::new();
    for index in plan {
        timed.push(simulate_request(index, 200, 10_000).unwrap());
    }
    let results = collect_results(config, &timed, 41_000);
    assert_eq!(results.times.len(), 1);
    assert_eq!(results.times[0], vec![10_000, 10_000, 10_000, 10_000]);
    assert_eq!(results.total, 41_000);

    let table = percentile_table(&results).unwrap();
    assert_eq!(table, vec![vec![10_000, 10_000, 10_000, 10_000]]);
}

/// The third of four otherwise successful requests answers 500: the
/// machine fails there, and no results are produced.
#[test]
fn failing_request_aborts_the_run() {
    let config = single_endpoint_config(2, 4);
    let plan = plan_requests(&config);

    let mut timed: Vec<TimedResult> = Vec::new();
    let mut outcome: Result<(), Error> = Ok(());
    for (call, index) in plan.into_iter().enumerate() {
        let status = if call == 2 { 500 } else { 200 };
        match simulate_request(index, status, 10_000) {
            Ok(result) => timed.push(result),
            Err(error) => {
                outcome = Err(error);
                break;
            }
        }
    }
    assert_eq!(
        outcome,
        Err(Error::UnexpectedStatusCode { status_code: 500, endpoint_index: 0 })
    );
    assert_eq!(timed.len(), 2);
}

/// A run of zero requests finishes at once with an empty bucket for
/// every endpoint.
#[test]
fn zero_total_run_is_empty() {
    let config = single_endpoint_config(2, 0);
    let plan = plan_requests(&config);
    assert_eq!(plan.len(), 0);

    let results = collect_results(config, &Vec::new(), 0);
    assert_eq!(results.times, vec![Vec::<u64>::new()]);
    assert_eq!(results.total, 0);

    assert_eq!(percentile_table(&results), Err(Error::InsufficientSamples));
}

/// The replayed run over all-success answers: four ten-millisecond
/// samples in the one bucket, so every percentile reads ten
/// milliseconds.
#[test]
fn replayed_run_with_all_successes() {
    let config = single_endpoint_config(2, 4);
    let results =
        run_with_responses(config, &vec![200, 200, 200, 200], &vec![10_000; 4], 41_000).unwrap();
    assert_eq!(results.times, vec![vec![10_000, 10_000, 10_000, 10_000]]);
    let table = percentile_table(&results).unwrap();
    assert_eq!(table, vec![vec![10_000, 10_000, 10_000, 10_000]]);
}

/// The replayed run where the third answer is a 500: it aborts with
/// that status and produces no results.
#[test]
fn replayed_run_aborts_on_first_bad_status() {
    let config = single_endpoint_config(2, 4);
    let outcome = run_with_responses(config, &vec![200, 200, 500, 200], &vec![10_000; 4], 41_000);
    assert_eq!(
        outcome,
        Err(Error::UnexpectedStatusCode { status_code: 500, endpoint_index: 0 })
    );
}

/// The replayed run of zero requests succeeds at once, empty.
#[test]
fn replayed_run_with_zero_total() {
    let config = single_endpoint_config(2, 0);
    let results = run_with_responses(config, &Vec::new(), &Vec::new(), 0).unwrap();
    assert_eq!(results.times, vec![Vec::<u64>::new()]);
    assert_eq!(results.total, 0);
}

/// Bucket sizes always add up to the number of collected results, and
/// every duration lands in its endpoint's bucket in arrival order.
#[test]
fn collection_groups_by_endpoint_and_keeps_every_sample() {
    let config = Config {
        concurrent: 2,
        total: 5,
        requests: vec![endpoint("http://a", 1), endpoint("http://b", 1)],
    };
    let timed = vec![
        TimedResult { endpoint_index: 0, elapsed_micros: 5 },
        TimedResult { endpoint_index: 1, elapsed_micros: 7 },
        TimedResult { endpoint_index: 0, elapsed_micros: 9 },
        TimedResult { endpoint_index: 1, elapsed_micros: 2 },
        TimedResult { endpoint_index: 1, elapsed_micros: 4 },
    ];
    let results = collect_results(config, &timed, 100);
    assert_eq!(results.times, vec![vec![5, 9], vec![7, 2, 4]]);
    assert_eq!(results.times.iter().map(Vec::len).sum::<usize>(), timed.len());
}

#[test]
fn sorting_rearranges_without_losing_samples() {
    let sorted = sort_durations(&vec![5, 3, 9, 3, 1]);
    assert_eq!(sorted, vec![1, 3, 3, 5, 9]);
    assert_eq!(sort_durations(&Vec::new()), Vec::<u64>::new());
}

#[test]
fn percentile_uses_nearest_rank_with_clamping() {
    let bucket: Vec<u64> = (1..=10).map(|i| i * 10).collect();
    assert_eq!(percentile(&bucket, 50), Ok(50));
    assert_eq!(percentile(&bucket, 90), Ok(90));
    assert_eq!(percentile(&bucket, 95), Ok(90));
    assert_eq!(percentile(&bucket, 99), Ok(90));
    assert_eq!(percentile(&bucket, 100), Ok(100));

    // With one sample, the nearest rank of a low percentile would sit
    // before the bucket; it is clamped to the first element.
    assert_eq!(percentile(&vec![42], 50), Ok(42));
    assert_eq!(percentile(&vec![42], 1), Ok(42));

    assert_eq!(percentile(&Vec::new(), 50), Err(Error::InsufficientSamples));
}

#[test]
fn percentiles_never_decrease_with_the_level() {
    let sorted = sort_durations(&vec![3, 1, 4, 1, 5, 9, 2, 6]);
    let p50 = percentile(&sorted, 50).unwrap();
    let p90 = percentile(&sorted, 90).unwrap();
    let p95 = percentile(&sorted, 95).unwrap();
    let p99 = percentile(&sorted, 99).unwrap();
    assert!(p50 <= p90 && p90 <= p95 && p95 <= p99);
}
