use vstd::prelude::*;

use crate::error::Error;

verus! {

/// One target endpoint: a URL and its relative selection weight.
#[derive(Clone, Debug, PartialEq, Eq, Hash)]
pub struct RequestConfig {
    pub url: String,
    /// Relative selection weight; a valid configuration has every
    /// weight at least one.
    pub weight: i32,
}

/// A full run configuration. It is immutable for the duration of a run
/// and shared read-only by all workers.
#[derive(Clone, Debug, PartialEq)]
pub struct Config {
    /// Number of concurrent workers.
    pub concurrent: usize,
    /// Total number of requests the run issues.
    pub total: usize,
    /// The configured endpoints, in order; result buckets are keyed by
    /// position in this sequence.
    pub requests: Vec<RequestConfig>,
}

/// Sum of the weights of `requests`, as a mathematical integer.
pub open spec fn weight_sum(requests: Seq<RequestConfig>) -> int
    decreases requests.len(),
{
    if requests.len() == 0 {
        0
    } else {
        weight_sum(requests.drop_last()) + requests.last().weight
    }
}

/// Sum of a sequence of raw weights, as a mathematical integer.
pub open spec fn i32_sum(weights: Seq<i32>) -> int
    decreases weights.len(),
{
    if weights.len() == 0 {
        0
    } else {
        i32_sum(weights.drop_last()) + weights.last()
    }
}

/// Two configurations are interchangeable for baseline comparison
/// exactly when they agree field by field, endpoints compared in order.
pub open spec fn config_matches(a: Config, b: Config) -> bool {
    &&& a.concurrent == b.concurrent
    &&& a.total == b.total
    &&& a.requests@.len() == b.requests@.len()
    &&& forall|i: int|
        0 <= i < a.requests@.len() ==> (a.requests@[i].url@ == b.requests@[i].url@
            && a.requests@[i].weight == b.requests@[i].weight)
}

/// Once every remaining weight is at least one, the sum over the whole
/// sequence is no smaller than the sum over a prefix.
proof fn lemma_weight_sum_extends(requests: Seq<RequestConfig>, i: int)
    requires
        0 <= i <= requests.len(),
        forall|j: int| i <= j < requests.len() ==> requests[j].weight >= 1,
    ensures
        weight_sum(requests) >= weight_sum(requests.take(i)),
    decreases requests.len() - i,
{
    if i < requests.len() {
        assert(requests.take(i + 1).drop_last() =~= requests.take(i));
        assert(requests.take(i + 1).last() == requests[i]);
        lemma_weight_sum_extends(requests, i + 1);
    } else {
        assert(requests.take(i) =~= requests);
    }
}

/// A weight list drawn element by element from an endpoint list sums to
/// the same value.
proof fn lemma_weight_sums_agree(requests: Seq<RequestConfig>, weights: Seq<i32>)
    requires
        weights.len() == requests.len(),
        forall|j: int| 0 <= j < requests.len() ==> weights[j] == requests[j].weight,
    ensures
        i32_sum(weights) == weight_sum(requests),
    decreases requests.len(),
{
    if requests.len() > 0 {
        lemma_weight_sums_agree(requests.drop_last(), weights.drop_last());
    }
}

/// Relies on `rand::distributions::WeightedIndex` together with
/// `rand::thread_rng`: `WeightedIndex::new` succeeds for a non-empty
/// list of positive weights whose sum fits the weight type, and
/// `sample` returns the index of one of the given weights, so the
/// result is below `weights.len()`. Which index comes back depends on
/// the thread-local generator, so nothing more is claimed of it.
#[verifier::external_body]
fn pick_weighted_index(weights: &Vec<i32>) -> (r: usize)
    requires
        weights@.len() > 0,
        forall|i: int| 0 <= i < weights@.len() ==> weights@[i] >= 1,
        i32_sum(weights@) <= i32::MAX,
    ensures
        r < weights@.len(),
{
    let dist = rand::distributions::WeightedIndex::new(weights)
        .expect("weights are non-empty and positive");
    let mut rng = rand::thread_rng();
    rand::distributions::Distribution::sample(&dist, &mut rng)
}

impl Config {
    /// The endpoint list can drive weighted selection: it is non-empty,
    /// every weight is at least one, and the summed weights fit in
    /// `i32` (the weight type of the sampler).
    pub open spec fn weights_valid(self) -> bool {
        &&& self.requests@.len() > 0
        &&& forall|i: int| 0 <= i < self.requests@.len() ==> self.requests@[i].weight >= 1
        &&& weight_sum(self.requests@) <= i32::MAX
    }

    /// A configuration the engine accepts for a full run.
    pub open spec fn valid(self) -> bool {
        &&& self.weights_valid()
        &&& self.concurrent > 0
        &&& self.total > 0
    }

    /// Checks a loaded configuration once, before any run: endpoint
    /// weights first, then the worker count, then the request total.
    pub fn validate(&self) -> (r: Result<(), Error>)
        ensures
            r is Ok <==> self.valid(),
            !self.weights_valid() ==> r == Err::<(), Error>(Error::InvalidWeights),
            self.weights_valid() && self.concurrent == 0 ==> r == Err::<(), Error>(Error::InvalidConcurrency),
            self.weights_valid() && self.concurrent > 0 && self.total == 0 ==> r == Err::<
                (),
                Error,
            >(Error::InvalidTotal),
    {
        let n = self.requests.len();
        if n == 0 {
            return Err(Error::InvalidWeights);
        }
        for i in 0..n
            invariant
                n == self.requests@.len(),
                forall|j: int| 0 <= j < i ==> self.requests@[j].weight >= 1,
        {
            if self.requests[i].weight < 1 {
                return Err(Error::InvalidWeights);
            }
        }
        let mut total_weight: i64 = 0;
        for i in 0..n
            invariant
                n == self.requests@.len(),
                forall|j: int| 0 <= j < n ==> self.requests@[j].weight >= 1,
                total_weight == weight_sum(self.requests@.take(i as int)),
                0 <= total_weight <= i32::MAX,
        {
            proof {
                assert(self.requests@.take(i + 1).drop_last() =~= self.requests@.take(i as int));
                assert(self.requests@.take(i + 1).last() == self.requests@[i as int]);
            }
            let next = total_weight + (self.requests[i].weight as i64);
            if next > (i32::MAX as i64) {
                proof {
                    lemma_weight_sum_extends(self.requests@, i + 1);
                }
                return Err(Error::InvalidWeights);
            }
            total_weight = next;
        }
        proof {
            assert(self.requests@.take(n as int) =~= self.requests@);
        }
        if self.concurrent == 0 {
            return Err(Error::InvalidConcurrency);
        }
        if self.total == 0 {
            return Err(Error::InvalidTotal);
        }
        Ok(())
    }

    /// Draws the position of the next endpoint to hit. Each call is an
    /// independent weighted draw with replacement; the contract only
    /// pins the result to a configured position.
    pub fn random_request_index(&self) -> (idx: usize)
        requires
            self.weights_valid(),
        ensures
            idx < self.requests@.len(),
    {
        let n = self.requests.len();
        let mut weights: Vec<i32> = Vec::new();
        for i in 0..n
            invariant
                n == self.requests@.len(),
                weights@.len() == i,
                forall|j: int| 0 <= j < i ==> weights@[j] == self.requests@[j].weight,
        {
            weights.push(self.requests[i].weight);
        }
        proof {
            lemma_weight_sums_agree(self.requests@, weights@);
        }
        pick_weighted_index(&weights)
    }

    /// Draws the next endpoint to hit: always one of the configured
    /// endpoints.
    pub fn get_random_request(&self) -> (r: &RequestConfig)
        requires
            self.weights_valid(),
        ensures
            exists|i: int| 0 <= i < self.requests@.len() && *r == self.requests@[i],
    {
        let idx = self.random_request_index();
        let r = &self.requests[idx];
        proof {
            assert(*r == self.requests@[idx as int]);
        }
        r
    }
}

/// Structural equality of two configurations, the condition for any
/// baseline comparison: same worker count, same total, same endpoints
/// with the same weights in the same order.
pub fn config_eq(a: &Config, b: &Config) -> (r: bool)
    ensures
        r == config_matches(*a, *b),
{
    if a.concurrent != b.concurrent || a.total != b.total {
        return false;
    }
    if a.requests.len() != b.requests.len() {
        return false;
    }
    let n = a.requests.len();
    for i in 0..n
        invariant
            n == a.requests@.len(),
            n == b.requests@.len(),
            a.concurrent == b.concurrent,
            a.total == b.total,
            forall|j: int|
                0 <= j < i ==> (a.requests@[j].url@ == b.requests@[j].url@
                    && a.requests@[j].weight == b.requests@[j].weight),
    {
        if a.requests[i].weight != b.requests[i].weight {
            return false;
        }
        if !(a.requests[i].url == b.requests[i].url) {
            return false;
        }
    }
    true
}

} // verus!
