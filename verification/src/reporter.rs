use vstd::prelude::*;

use crate::config::{config_eq, config_matches, Config};
use crate::error::Error;
use crate::stats::{percentile, percentile_index, sort_durations, sorted_version};

verus! {

/// Everything one completed run produced. This is also the unit a
/// baseline stores.
#[derive(Clone, Debug, PartialEq)]
pub struct Results {
    /// The configuration the run was made with.
    pub config: Config,
    /// One duration bucket per configured endpoint, in configuration
    /// order; entries are elapsed times in microseconds, in completion
    /// order.
    pub times: Vec<Vec<u64>>,
    /// Wall-clock time of the whole run, in microseconds.
    pub total: u64,
}

impl Results {
    /// The shape every finished run has: exactly one duration bucket
    /// per configured endpoint.
    pub open spec fn wf(self) -> bool {
        self.times@.len() == self.config.requests@.len()
    }
}

/// How a current percentile stands against the baseline's.
#[derive(Clone, Copy, Debug, PartialEq, Eq, Structural)]
pub enum Band {
    /// More than five percent faster.
    Improvement,
    /// Faster by more than one percent but at most five.
    MinorImprovement,
    /// Within one percent either way.
    Unchanged,
    /// Slower by at least one percent but under five.
    MinorRegression,
    /// Five percent or more slower.
    Regression,
}

/// Classification of the relative change from `baseline` to `current`
/// (both in microseconds): the bands compare the exact ratio
/// `(current - baseline) / baseline * 100` against -5, -1, +1 and +5.
/// A zero baseline admits no ratio: any increase over it counts as a
/// regression and no change counts as unchanged.
pub open spec fn band_of(baseline: int, current: int) -> Band {
    if baseline == 0 {
        if current == 0 {
            Band::Unchanged
        } else {
            Band::Regression
        }
    } else {
        let scaled = (current - baseline) * 100;
        if scaled < -5 * baseline {
            Band::Improvement
        } else if scaled >= 5 * baseline {
            Band::Regression
        } else if scaled < -1 * baseline {
            Band::MinorImprovement
        } else if scaled >= baseline {
            Band::MinorRegression
        } else {
            Band::Unchanged
        }
    }
}

/// Puts one current duration against its baseline counterpart.
pub fn classify_difference(baseline: u64, current: u64) -> (r: Band)
    ensures
        r == band_of(baseline as int, current as int),
{
    if baseline == 0 {
        if current == 0 {
            Band::Unchanged
        } else {
            Band::Regression
        }
    } else if current >= baseline {
        let scaled: u128 = ((current - baseline) as u128) * 100;
        let base5: u128 = (baseline as u128) * 5;
        if scaled >= base5 {
            Band::Regression
        } else if scaled >= baseline as u128 {
            Band::MinorRegression
        } else {
            Band::Unchanged
        }
    } else {
        let scaled: u128 = ((baseline - current) as u128) * 100;
        let base5: u128 = (baseline as u128) * 5;
        if scaled > base5 {
            Band::Improvement
        } else if scaled > baseline as u128 {
            Band::MinorImprovement
        } else {
            Band::Unchanged
        }
    }
}

/// The relative change from `baseline` to `current` as a sign and a
/// magnitude in hundredths of a percent, truncated toward zero.
#[derive(Clone, Copy, Debug, PartialEq, Eq, Structural)]
pub struct PercentDelta {
    pub negative: bool,
    pub abs_centipercent: u128,
}

/// Magnitude of the relative change, in hundredths of a percent,
/// truncated.
pub open spec fn abs_centipercent_of(baseline: int, current: int) -> int {
    if current >= baseline {
        (current - baseline) * 10000 / baseline
    } else {
        (baseline - current) * 10000 / baseline
    }
}

/// The computed delta between one current duration and its baseline
/// counterpart, both in microseconds.
pub fn percent_delta(baseline: u64, current: u64) -> (r: PercentDelta)
    requires
        baseline > 0,
    ensures
        r.negative == (current < baseline),
        r.abs_centipercent == abs_centipercent_of(baseline as int, current as int),
{
    if current >= baseline {
        let diff: u128 = (current - baseline) as u128;
        PercentDelta { negative: false, abs_centipercent: diff * 10000 / (baseline as u128) }
    } else {
        let diff: u128 = (baseline - current) as u128;
        PercentDelta { negative: true, abs_centipercent: diff * 10000 / (baseline as u128) }
    }
}

/// A run put against a baseline with the very same duration at some
/// percentile reports that percentile as unchanged, with a zero delta.
pub proof fn lemma_equal_durations_unchanged(value: int)
    requires
        0 <= value,
    ensures
        band_of(value, value) == Band::Unchanged,
        value > 0 ==> abs_centipercent_of(value, value) == 0,
{
    if value > 0 {
        assert(0int / value == 0) by (nonlinear_arith)
            requires
                value > 0,
        ;
    }
}

/// A comparison row built from one and the same bucket on both sides
/// always lands in the unchanged band: a run put against a baseline
/// with identical duration buckets reports every percentile unchanged.
pub proof fn lemma_identical_buckets_unchanged(bucket: Seq<u64>, p: int)
    requires
        bucket.len() > 0,
        0 <= p <= 100,
    ensures
        delta_entry(bucket, bucket, p).band == Band::Unchanged,
        delta_entry(bucket, bucket, p).current == delta_entry(bucket, bucket, p).baseline,
{
    let value = sorted_version(bucket)[percentile_index(bucket.len() as int, p)];
    lemma_equal_durations_unchanged(value as int);
}

/// The percentile levels every report shows, in display order.
pub open spec fn percentile_level(k: int) -> int {
    if k == 0 {
        50
    } else if k == 1 {
        90
    } else if k == 2 {
        95
    } else {
        99
    }
}

/// One row of a baseline comparison: a percentile level, the current
/// and baseline durations at it, and the band of their relative change.
#[derive(Clone, Copy, Debug, PartialEq, Eq, Structural)]
pub struct DeltaEntry {
    pub percentile: u8,
    pub current: u64,
    pub baseline: u64,
    pub band: Band,
}

/// The comparison row for percentile `p`, read from the two raw
/// (unsorted) buckets.
pub open spec fn delta_entry(cur_bucket: Seq<u64>, base_bucket: Seq<u64>, p: int) -> DeltaEntry {
    let cur_value = sorted_version(cur_bucket)[percentile_index(cur_bucket.len() as int, p)];
    let base_value = sorted_version(base_bucket)[percentile_index(base_bucket.len() as int, p)];
    DeltaEntry {
        percentile: p as u8,
        current: cur_value,
        baseline: base_value,
        band: band_of(base_value as int, cur_value as int),
    }
}

/// One comparison row from two already-sorted non-empty buckets.
fn delta_for(sorted_cur: &Vec<u64>, sorted_base: &Vec<u64>, p: u8) -> (e: DeltaEntry)
    requires
        sorted_cur@.len() > 0,
        sorted_base@.len() > 0,
        p <= 100,
    ensures
        e.percentile == p,
        e.current == sorted_cur@[percentile_index(sorted_cur@.len() as int, p as int)],
        e.baseline == sorted_base@[percentile_index(sorted_base@.len() as int, p as int)],
        e.band == band_of(e.baseline as int, e.current as int),
{
    let cur_value = match percentile(sorted_cur, p) {
        Ok(v) => v,
        Err(_) => {
            proof {
                assert(false);
            }
            0
        },
    };
    let base_value = match percentile(sorted_base, p) {
        Ok(v) => v,
        Err(_) => {
            proof {
                assert(false);
            }
            0
        },
    };
    DeltaEntry {
        percentile: p,
        current: cur_value,
        baseline: base_value,
        band: classify_difference(base_value, cur_value),
    }
}

/// Compares a finished run against a stored baseline.
///
/// The comparison is refused outright when the two configurations are
/// not structurally identical: no delta is computed then. When they
/// match, the result holds one row of four percentile comparisons per
/// endpoint, in configuration order; an empty duration bucket on either
/// side has no percentiles and is reported as an error instead.
pub fn compare_results(current: &Results, baseline: &Results) -> (r: Result<
    Vec<Vec<DeltaEntry>>,
    Error,
>)
    requires
        current.wf(),
        baseline.wf(),
    ensures
        !config_matches(current.config, baseline.config) ==> r == Err::<
            Vec<Vec<DeltaEntry>>,
            Error,
        >(Error::BaselineMismatch),
        config_matches(current.config, baseline.config) ==> match r {
            Ok(table) => {
                &&& table@.len() == current.times@.len()
                &&& forall|i: int|
                    0 <= i < current.times@.len() ==> #[trigger] current.times@[i]@.len() > 0
                        && baseline.times@[i]@.len() > 0
                &&& forall|i: int| 0 <= i < table@.len() ==> #[trigger] table@[i]@.len() == 4
                &&& forall|i: int, k: int|
                    0 <= i < table@.len() && 0 <= k < 4 ==> #[trigger] table@[i]@[k] == delta_entry(
                        current.times@[i]@,
                        baseline.times@[i]@,
                        percentile_level(k),
                    )
            },
            Err(e) => {
                &&& e == Error::InsufficientSamples
                &&& exists|i: int|
                    0 <= i < current.times@.len() && (#[trigger] current.times@[i]@.len() == 0
                        || baseline.times@[i]@.len() == 0)
            },
        },
{
    if !config_eq(&current.config, &baseline.config) {
        return Err(Error::BaselineMismatch);
    }
    let n = current.times.len();
    let mut table: Vec<Vec<DeltaEntry>> = Vec::new();
    for i in 0..n
        invariant
            config_matches(current.config, baseline.config),
            n == current.times@.len(),
            n == baseline.times@.len(),
            table@.len() == i,
            forall|j: int|
                0 <= j < i ==> #[trigger] current.times@[j]@.len() > 0
                    && baseline.times@[j]@.len() > 0,
            forall|j: int| 0 <= j < i ==> #[trigger] table@[j]@.len() == 4,
            forall|j: int, k: int|
                0 <= j < i && 0 <= k < 4 ==> #[trigger] table@[j]@[k] == delta_entry(
                    current.times@[j]@,
                    baseline.times@[j]@,
                    percentile_level(k),
                ),
    {
        let sorted_cur = sort_durations(&current.times[i]);
        let sorted_base = sort_durations(&baseline.times[i]);
        if sorted_cur.len() == 0 || sorted_base.len() == 0 {
            return Err(Error::InsufficientSamples);
        }
        let mut row: Vec<DeltaEntry> = Vec::new();
        row.push(delta_for(&sorted_cur, &sorted_base, 50));
        row.push(delta_for(&sorted_cur, &sorted_base, 90));
        row.push(delta_for(&sorted_cur, &sorted_base, 95));
        row.push(delta_for(&sorted_cur, &sorted_base, 99));
        table.push(row);
    }
    Ok(table)
}

/// The four percentile durations for every endpoint of a finished run,
/// in configuration order, read from each bucket sorted ascending. An
/// empty bucket has no percentiles and is reported as an error.
pub fn percentile_table(results: &Results) -> (r: Result<Vec<Vec<u64>>, Error>)
    requires
        results.wf(),
    ensures
        match r {
            Ok(table) => {
                &&& table@.len() == results.times@.len()
                &&& forall|i: int|
                    0 <= i < results.times@.len() ==> #[trigger] results.times@[i]@.len() > 0
                &&& forall|i: int| 0 <= i < table@.len() ==> #[trigger] table@[i]@.len() == 4
                &&& forall|i: int, k: int|
                    0 <= i < table@.len() && 0 <= k < 4 ==> #[trigger] table@[i]@[k]
                        == sorted_version(results.times@[i]@)[percentile_index(
                        results.times@[i]@.len() as int,
                        percentile_level(k),
                    )]
            },
            Err(e) => {
                &&& e == Error::InsufficientSamples
                &&& exists|i: int|
                    0 <= i < results.times@.len() && #[trigger] results.times@[i]@.len() == 0
            },
        },
{
    let n = results.times.len();
    let mut table: Vec<Vec<u64>> = Vec::new();
    for i in 0..n
        invariant
            n == results.times@.len(),
            table@.len() == i,
            forall|j: int| 0 <= j < i ==> #[trigger] results.times@[j]@.len() > 0,
            forall|j: int| 0 <= j < i ==> #[trigger] table@[j]@.len() == 4,
            forall|j: int, k: int|
                0 <= j < i && 0 <= k < 4 ==> #[trigger] table@[j]@[k] == sorted_version(
                    results.times@[j]@,
                )[percentile_index(results.times@[j]@.len() as int, percentile_level(k))],
    {
        let sorted_bucket = sort_durations(&results.times[i]);
        if sorted_bucket.len() == 0 {
            return Err(Error::InsufficientSamples);
        }
        let mut row: Vec<u64> = Vec::new();
        row.push(percentile_value(&sorted_bucket, 50));
        row.push(percentile_value(&sorted_bucket, 90));
        row.push(percentile_value(&sorted_bucket, 95));
        row.push(percentile_value(&sorted_bucket, 99));
        table.push(row);
    }
    Ok(table)
}

/// The nearest-rank percentile of a sorted non-empty bucket, as a bare
/// value.
fn percentile_value(sorted_durations: &Vec<u64>, p: u8) -> (r: u64)
    requires
        sorted_durations@.len() > 0,
        p <= 100,
    ensures
        r == sorted_durations@[percentile_index(sorted_durations@.len() as int, p as int)],
{
    match percentile(sorted_durations, p) {
        Ok(v) => v,
        Err(_) => {
            proof {
                assert(false);
            }
            0
        },
    }
}

} // verus!
