use vstd::prelude::*;

use crate::config::Config;
use crate::error::Error;
use crate::reporter::Results;

verus! {

/// One completed request: which endpoint was hit (by its position in
/// the configuration) and how long it took, in microseconds.
#[derive(Clone, Copy, Debug, PartialEq, Eq, Structural)]
pub struct TimedResult {
    pub endpoint_index: usize,
    pub elapsed_micros: u64,
}

/// The status codes a response may carry for the run to go on.
pub open spec fn spec_status_accepted(status_code: u16) -> bool {
    status_code == 200 || status_code == 201 || status_code == 204
}

/// Whether a response status lets the run go on: only 200, 201 and 204
/// are accepted.
pub fn status_accepted(status_code: u16) -> (r: bool)
    ensures
        r == spec_status_accepted(status_code),
{
    status_code == 200 || status_code == 201 || status_code == 204
}

/// Judges one response: accepted status codes pass, every other code
/// is the fatal error that aborts the run, naming the endpoint and the
/// code.
pub fn check_response(endpoint_index: usize, status_code: u16) -> (r: Result<(), Error>)
    ensures
        spec_status_accepted(status_code) <==> r is Ok,
        !spec_status_accepted(status_code) ==> r == Err::<(), Error>(
            (Error::UnexpectedStatusCode { status_code, endpoint_index }),
        ),
{
    if status_accepted(status_code) {
        Ok(())
    } else {
        Err(Error::UnexpectedStatusCode { status_code, endpoint_index })
    }
}

/// Where one worker stands. A worker is a loop: it dequeues work while
/// any is left, issues one timed request at a time, and ends in
/// `Stopped` when the queue is closed and drained, or in `Failed` the
/// moment one request goes wrong.
#[derive(Clone, Copy, Debug, PartialEq, Eq, Structural)]
pub enum WorkerState {
    /// Ready for the next work item.
    Idle,
    /// A request to the endpoint at this position is in flight.
    Fetching { endpoint_index: usize },
    /// Terminal: the work queue was closed and empty.
    Stopped,
    /// Terminal: a request failed; the whole run aborts.
    Failed,
}

/// What the outside world hands a worker next.
#[derive(Clone, Copy, Debug, PartialEq, Eq, Structural)]
pub enum WorkerEvent {
    /// A work item was dequeued: hit the endpoint at this position.
    Dequeued { endpoint_index: usize },
    /// The work queue is closed and empty; no more work will ever come.
    QueueClosed,
    /// The request in flight came back with this status, after this
    /// many microseconds.
    Response { status_code: u16, elapsed_micros: u64 },
    /// The request in flight failed below the HTTP layer.
    TransportFailed,
}

/// What the worker asks the outside world to do after a step.
#[derive(Clone, Copy, Debug, PartialEq, Eq, Structural)]
pub enum WorkerAction {
    /// Issue a timed GET to the endpoint at this position.
    IssueRequest { endpoint_index: usize },
    /// Push this completed result onto the results queue.
    Record { result: TimedResult },
    /// Stop every worker and surface this error; no report follows.
    Abort { error: Error },
    /// Exit the worker loop cleanly.
    Exit,
}

/// One step of the worker state machine: from the current state and
/// the event that arrived, the next state and the action to perform.
/// Every transition is pinned exactly; a failure is terminal and always
/// carries the abort action.
pub fn worker_step(state: WorkerState, event: WorkerEvent) -> (r: (WorkerState, WorkerAction))
    requires
        state is Idle || state is Fetching,
        state is Idle ==> (event is Dequeued || event is QueueClosed),
        state is Fetching ==> (event is Response || event is TransportFailed),
    ensures
        event matches WorkerEvent::Dequeued { endpoint_index } ==> r == ((WorkerState::Fetching {
            endpoint_index,
        }), (WorkerAction::IssueRequest { endpoint_index })),
        event is QueueClosed ==> r == (WorkerState::Stopped, WorkerAction::Exit),
        state matches WorkerState::Fetching { endpoint_index } ==> ((event
            matches WorkerEvent::Response { status_code, elapsed_micros } ==> r == (if
        spec_status_accepted(status_code) {
            ((WorkerState::Idle), (WorkerAction::Record {
                result: (TimedResult { endpoint_index, elapsed_micros }),
            }))
        } else {
            ((WorkerState::Failed), (WorkerAction::Abort {
                error: (Error::UnexpectedStatusCode { status_code, endpoint_index }),
            }))
        })) && (event is TransportFailed ==> r == ((WorkerState::Failed), (WorkerAction::Abort {
            error: (Error::RequestFailed { endpoint_index }),
        })))),
{
    match state {
        WorkerState::Idle => match event {
            WorkerEvent::Dequeued { endpoint_index } => (
                WorkerState::Fetching { endpoint_index },
                WorkerAction::IssueRequest { endpoint_index },
            ),
            WorkerEvent::QueueClosed => (WorkerState::Stopped, WorkerAction::Exit),
            _ => {
                proof {
                    assert(false);
                }
                (WorkerState::Failed, WorkerAction::Exit)
            },
        },
        WorkerState::Fetching { endpoint_index } => match event {
            WorkerEvent::Response { status_code, elapsed_micros } => {
                if status_accepted(status_code) {
                    (
                        WorkerState::Idle,
                        WorkerAction::Record {
                            result: TimedResult { endpoint_index, elapsed_micros },
                        },
                    )
                } else {
                    (
                        WorkerState::Failed,
                        WorkerAction::Abort {
                            error: Error::UnexpectedStatusCode { status_code, endpoint_index },
                        },
                    )
                }
            },
            WorkerEvent::TransportFailed => (
                WorkerState::Failed,
                WorkerAction::Abort { error: Error::RequestFailed { endpoint_index } },
            ),
            _ => {
                proof {
                    assert(false);
                }
                (WorkerState::Failed, WorkerAction::Exit)
            },
        },
        _ => {
            proof {
                assert(false);
            }
            (WorkerState::Failed, WorkerAction::Exit)
        },
    }
}

/// Draws the whole run's worth of work items up front: one weighted
/// endpoint position per request to issue.
pub fn plan_requests(config: &Config) -> (plan: Vec<usize>)
    requires
        config.weights_valid(),
    ensures
        plan@.len() == config.total,
        forall|k: int| 0 <= k < plan@.len() ==> #[trigger] plan@[k] < config.requests@.len(),
{
    let mut plan: Vec<usize> = Vec::new();
    let total = config.total;
    for k in 0..total
        invariant
            config.weights_valid(),
            plan@.len() == k,
            forall|q: int| 0 <= q < k ==> #[trigger] plan@[q] < config.requests@.len(),
    {
        plan.push(config.random_request_index());
    }
    plan
}

/// The durations that belong to endpoint `j`, in the order the results
/// arrived.
pub open spec fn bucket_of(timed: Seq<TimedResult>, j: int) -> Seq<u64>
    decreases timed.len(),
{
    if timed.len() == 0 {
        Seq::empty()
    } else {
        let prefix = bucket_of(timed.drop_last(), j);
        if timed.last().endpoint_index == j {
            prefix.push(timed.last().elapsed_micros)
        } else {
            prefix
        }
    }
}

/// How many durations all buckets hold together.
pub open spec fn total_count(times: Seq<Vec<u64>>) -> int
    decreases times.len(),
{
    if times.len() == 0 {
        0
    } else {
        total_count(times.drop_last()) + times.last()@.len()
    }
}

/// Combined size of the first `n` buckets carved out of `timed`.
pub open spec fn bucket_len_sum(timed: Seq<TimedResult>, n: int) -> int
    decreases n,
{
    if n <= 0 {
        0
    } else {
        bucket_len_sum(timed, n - 1) + bucket_of(timed, n - 1).len()
    }
}

/// With no results there is nothing in any bucket.
proof fn lemma_bucket_len_sum_empty(n: int)
    requires
        0 <= n,
    ensures
        bucket_len_sum(Seq::<TimedResult>::empty(), n) == 0,
    decreases n,
{
    if n > 0 {
        lemma_bucket_len_sum_empty(n - 1);
    }
}

/// One more result grows exactly one bucket, when its endpoint is among
/// the first `n`.
proof fn lemma_bucket_len_sum_push(prefix: Seq<TimedResult>, t: TimedResult, n: int)
    requires
        0 <= n,
    ensures
        bucket_len_sum(prefix.push(t), n) == bucket_len_sum(prefix, n) + if t.endpoint_index < n {
            1int
        } else {
            0int
        },
    decreases n,
{
    if n > 0 {
        lemma_bucket_len_sum_push(prefix, t, n - 1);
        assert(prefix.push(t).drop_last() =~= prefix);
        assert(prefix.push(t).last() == t);
    }
}

/// Every result lands in exactly one bucket, so the bucket sizes sum to
/// the number of results.
proof fn lemma_bucket_len_sum_total(timed: Seq<TimedResult>, n: int)
    requires
        0 <= n,
        forall|k: int| 0 <= k < timed.len() ==> #[trigger] timed[k].endpoint_index < n,
    ensures
        bucket_len_sum(timed, n) == timed.len(),
    decreases timed.len(),
{
    if timed.len() == 0 {
        lemma_bucket_len_sum_empty(n);
        assert(timed =~= Seq::<TimedResult>::empty());
    } else {
        let prefix = timed.drop_last();
        lemma_bucket_len_sum_total(prefix, n);
        lemma_bucket_len_sum_push(prefix, timed.last(), n);
        assert(prefix.push(timed.last()) =~= timed);
    }
}

/// Buckets that each hold their carved-out share of `timed` together
/// hold `bucket_len_sum` durations.
proof fn lemma_total_count_matches(times: Seq<Vec<u64>>, timed: Seq<TimedResult>)
    requires
        forall|j: int| 0 <= j < times.len() ==> #[trigger] times[j]@ == bucket_of(timed, j),
    ensures
        total_count(times) == bucket_len_sum(timed, times.len() as int),
    decreases times.len(),
{
    if times.len() > 0 {
        lemma_total_count_matches(times.drop_last(), timed);
    }
}

/// One whole run, replayed over given outcomes: the k-th issued request
/// is answered with `statuses[k]` after `elapsed_micros[k]`. This is
/// the run's decision logic entire — drawing the plan, stepping each
/// request through the worker machine, collecting the buckets — with
/// the network's answers passed in as plain values.
///
/// When every response is accepted the run succeeds and the buckets
/// together hold exactly `config.total` samples; the first rejected
/// status aborts the run with that status's error and no results. A
/// zero-request run succeeds at once with every bucket empty.
pub fn run_with_responses(
    config: Config,
    statuses: &Vec<u16>,
    elapsed_micros: &Vec<u64>,
    total_micros: u64,
) -> (r: Result<Results, Error>)
    requires
        config.weights_valid(),
        statuses@.len() == config.total,
        elapsed_micros@.len() == config.total,
    ensures
        (forall|k: int| 0 <= k < config.total ==> spec_status_accepted(statuses@[k])) <==> r is Ok,
        r matches Ok(results) ==> {
            &&& results.config == config
            &&& results.wf()
            &&& results.total == total_micros
            &&& total_count(results.times@) == config.total
            &&& config.total == 0 ==> forall|j: int|
                0 <= j < results.times@.len() ==> #[trigger] results.times@[j]@.len() == 0
        },
        r matches Err(e) ==> exists|k: int|
            {
                &&& 0 <= k < config.total
                &&& !spec_status_accepted(#[trigger] statuses@[k])
                &&& forall|q: int| 0 <= q < k ==> spec_status_accepted(statuses@[q])
                &&& e matches Error::UnexpectedStatusCode { status_code, endpoint_index }
                    && status_code == statuses@[k] && endpoint_index
                    < config.requests@.len()
            },
{
    let plan = plan_requests(&config);
    let mut timed: Vec<TimedResult> = Vec::new();
    let total = config.total;
    for k in 0..total
        invariant
            total == config.total,
            statuses@.len() == total,
            elapsed_micros@.len() == total,
            plan@.len() == total,
            forall|q: int| 0 <= q < total ==> #[trigger] plan@[q] < config.requests@.len(),
            timed@.len() == k,
            forall|q: int| 0 <= q < k ==> spec_status_accepted(#[trigger] statuses@[q]),
            forall|q: int|
                0 <= q < k ==> #[trigger] timed@[q].endpoint_index < config.requests@.len(),
    {
        let (fetching, _issue) = worker_step(
            WorkerState::Idle,
            WorkerEvent::Dequeued { endpoint_index: plan[k] },
        );
        let (_next, outcome) = worker_step(
            fetching,
            WorkerEvent::Response {
                status_code: statuses[k],
                elapsed_micros: elapsed_micros[k],
            },
        );
        match outcome {
            WorkerAction::Record { result } => {
                timed.push(result);
            },
            WorkerAction::Abort { error } => {
                return Err(error);
            },
            _ => {
                proof {
                    assert(false);
                }
                return Err(Error::InsufficientSamples);
            },
        }
    }
    let results = collect_results(config, &timed, total_micros);
    proof {
        if total == 0 {
            assert(timed@ =~= Seq::<TimedResult>::empty());
        }
    }
    Ok(results)
}

/// Groups the drained results queue into per-endpoint duration buckets,
/// in configuration order. Arrival order within a bucket is kept; every
/// result lands in the bucket of its endpoint, so the bucket sizes sum
/// to the number of results collected.
pub fn collect_results(config: Config, timed: &Vec<TimedResult>, total_micros: u64) -> (r: Results)
    requires
        forall|k: int|
            0 <= k < timed@.len() ==> #[trigger] timed@[k].endpoint_index
                < config.requests@.len(),
    ensures
        r.config == config,
        r.total == total_micros,
        r.wf(),
        r.times@.len() == config.requests@.len(),
        forall|j: int| 0 <= j < r.times@.len() ==> #[trigger] r.times@[j]@ == bucket_of(timed@, j),
        total_count(r.times@) == timed@.len(),
{
    let n = config.requests.len();
    let mut times: Vec<Vec<u64>> = Vec::new();
    for j in 0..n
        invariant
            n == config.requests@.len(),
            times@.len() == j,
            forall|q: int| 0 <= q < j ==> #[trigger] times@[q]@ == bucket_of(timed@, q),
    {
        let mut bucket: Vec<u64> = Vec::new();
        let m = timed.len();
        for k in 0..m
            invariant
                m == timed@.len(),
                bucket@ == bucket_of(timed@.take(k as int), j as int),
        {
            if timed[k].endpoint_index == j {
                bucket.push(timed[k].elapsed_micros);
            }
            proof {
                assert(timed@.take(k + 1).drop_last() =~= timed@.take(k as int));
                assert(timed@.take(k + 1).last() == timed@[k as int]);
            }
        }
        proof {
            assert(timed@.take(m as int) =~= timed@);
        }
        times.push(bucket);
    }
    proof {
        lemma_total_count_matches(times@, timed@);
        lemma_bucket_len_sum_total(timed@, n as int);
    }
    Results { config, times, total: total_micros }
}

} // verus!
