//! The delta distribution: five buckets of jitter zones with their success and failure
//! counts, the LCC core benchmark tally, and TAD resonance recovery.
use crate::solver::{core_operation, lcc_core_operation, BipartiteTensor};
use crate::zone::JitterZone;
use vstd::prelude::*;

verus! {

/// Number of buckets in the delta distribution.
pub const BUCKET_COUNT: usize = 5;

/// Counts of one bucket of the delta distribution.
#[derive(Debug, Clone, Copy, PartialEq, Eq, Structural)]
pub struct DeltaBucket {
    pub samples: usize,
    pub successes: usize,
    pub failures: usize,
}

/// A sample's jitter zone and the zone its jitter reaches once cooled.
#[derive(Debug, Clone, Copy, PartialEq, Eq, Structural)]
pub struct CoolingObservation {
    pub zone: JitterZone,
    pub cooled: JitterZone,
}

/// Counts of the LCC core benchmark path.
#[derive(Debug, Clone, Copy, PartialEq, Eq, Structural)]
pub struct LccCoreTally {
    /// Samples whose core operation returned the expected anchor.
    pub exact_matches: usize,
    /// Samples whose core operation failed.
    pub failures: usize,
}

/// The bucket that holds a zone: stable `[0, pi/12)`, snap-zone `[pi/12, pi/6)`, hold-zone
/// `[pi/6, pi/4)`, high-jitter `[pi/4, pi/3)` and incoherent `[pi/3, inf)`. Negative,
/// infinite and undefined jitter lie in no bucket.
pub open spec fn bucket_of(zone: JitterZone) -> Option<usize> {
    match zone {
        JitterZone::Stable => Some(0),
        JitterZone::SnapZone => Some(1),
        JitterZone::HoldZone => Some(2),
        JitterZone::HighJitter => Some(3),
        JitterZone::Incoherent => Some(4),
        _ => None,
    }
}

/// The label of bucket `index`.
pub open spec fn label_of(index: int) -> Seq<char> {
    if index == 0 {
        "stable"@
    } else if index == 1 {
        "snap-zone"@
    } else if index == 2 {
        "hold-zone"@
    } else if index == 3 {
        "high-jitter"@
    } else {
        "incoherent"@
    }
}

/// An empty bucket.
pub open spec fn empty_bucket() -> DeltaBucket {
    DeltaBucket { samples: 0, successes: 0, failures: 0 }
}

/// A bucket with one more sample, counted as a success or a failure.
pub open spec fn recorded(b: DeltaBucket, succeeded: bool) -> DeltaBucket {
    DeltaBucket {
        samples: (b.samples + 1) as usize,
        successes: if succeeded {
            (b.successes + 1) as usize
        } else {
            b.successes
        },
        failures: if succeeded {
            b.failures
        } else {
            (b.failures + 1) as usize
        },
    }
}

/// The counts of a bucket can take one more sample.
pub open spec fn can_record(b: DeltaBucket, succeeded: bool) -> bool {
    &&& b.samples < usize::MAX
    &&& succeeded ==> b.successes < usize::MAX
    &&& !succeeded ==> b.failures < usize::MAX
}

/// The buckets after one sample in `zone` is recorded.
pub open spec fn record_sample(buckets: Seq<DeltaBucket>, zone: JitterZone, succeeded: bool) -> Seq<
    DeltaBucket,
> {
    match bucket_of(zone) {
        Some(i) => buckets.update(i as int, recorded(buckets[i as int], succeeded)),
        None => buckets,
    }
}

/// The LCC core benchmark over `zones`: each sample is a tensor anchored at 6 with its
/// jitter in the zone, operated on at a thermal load under the threshold. The result is
/// the exact matches, the failures, and the delta distribution.
pub open spec fn core_tally(zones: Seq<JitterZone>) -> (nat, nat, Seq<DeltaBucket>)
    decreases zones.len(),
{
    if zones.len() == 0 {
        (0, 0, seq![empty_bucket(), empty_bucket(), empty_bucket(), empty_bucket(), empty_bucket()])
    } else {
        let (exact, failures, buckets) = core_tally(zones.drop_last());
        let zone = zones.last();
        if core_operation(BipartiteTensor { anchor: 6, jitter: zone }, false) is Ok {
            (exact + 1, failures, record_sample(buckets, zone, true))
        } else {
            (exact, failures + 1, record_sample(buckets, zone, false))
        }
    }
}

/// One sample of resonance recovery: a sample that failed the snap zone, but whose cooled
/// jitter no longer reaches it, moves one failure of its bucket to the successes (when the
/// bucket has one). The result is the buckets and the recoveries in the hold-zone and in
/// the high-jitter bucket.
pub open spec fn recovery_step(buckets: Seq<DeltaBucket>, obs: CoolingObservation) -> (
    Seq<DeltaBucket>,
    nat,
    nat,
) {
    if obs.zone.below_snap() || obs.cooled.at_or_above_snap() {
        (buckets, 0, 0)
    } else {
        match bucket_of(obs.zone) {
            Some(i) => if buckets[i as int].failures > 0 {
                let b = buckets[i as int];
                (
                    buckets.update(
                        i as int,
                        DeltaBucket {
                            samples: b.samples,
                            successes: (b.successes + 1) as usize,
                            failures: (b.failures - 1) as usize,
                        },
                    ),
                    if i == 2 {
                        1
                    } else {
                        0
                    },
                    if i == 3 {
                        1
                    } else {
                        0
                    },
                )
            } else {
                (buckets, 0, 0)
            },
            None => (buckets, 0, 0),
        }
    }
}

/// Resonance recovery over a run of observations.
pub open spec fn recovery_run(buckets: Seq<DeltaBucket>, obs: Seq<CoolingObservation>) -> (
    Seq<DeltaBucket>,
    nat,
    nat,
)
    decreases obs.len(),
{
    if obs.len() == 0 {
        (buckets, 0, 0)
    } else {
        let (b1, h1, j1) = recovery_run(buckets, obs.drop_last());
        let (b2, h2, j2) = recovery_step(b1, obs.last());
        (b2, h1 + h2, j1 + j2)
    }
}

/// An observation that resonance recovery would recover in bucket `i`: its jitter is in
/// bucket `i`, outside the snap zone, and its cooled jitter no longer reaches the snap zone.
pub open spec fn recovers_in(o: CoolingObservation, i: int) -> bool {
    &&& !o.zone.below_snap()
    &&& !o.cooled.at_or_above_snap()
    &&& bucket_of(o.zone) == Some(i as usize)
}

/// The number of observations that resonance recovery would recover in bucket `i`.
pub open spec fn recoverable(obs: Seq<CoolingObservation>, i: int) -> nat
    decreases obs.len(),
{
    if obs.len() == 0 {
        0
    } else {
        recoverable(obs.drop_last(), i) + if recovers_in(obs.last(), i) {
            1nat
        } else {
            0nat
        }
    }
}

/// The failures of bucket `b` (at index `i`) that a run of observations recovers: one per
/// recoverable observation, as long as failures remain.
pub open spec fn recoveries(b: DeltaBucket, obs: Seq<CoolingObservation>, i: int) -> nat {
    if b.failures <= recoverable(obs, i) {
        b.failures as nat
    } else {
        recoverable(obs, i)
    }
}

/// A bucket whose `m` recovered failures moved to its successes.
pub open spec fn recovered_bucket(b: DeltaBucket, m: nat) -> DeltaBucket {
    DeltaBucket {
        samples: b.samples,
        successes: (b.successes + m) as usize,
        failures: (b.failures - m) as usize,
    }
}

/// No bucket's success count passes `usize::MAX` while the observations recover it.
pub open spec fn recovery_fits(buckets: Seq<DeltaBucket>, obs: Seq<CoolingObservation>) -> bool {
    forall|i: int|
        0 <= i < BUCKET_COUNT ==> #[trigger] buckets[i].successes + recoveries(buckets[i], obs, i)
            <= usize::MAX
}

/// A prefix of the observations recovers no more than all of them.
pub proof fn lemma_recoverable_prefix(obs: Seq<CoolingObservation>, k: int, i: int)
    requires
        0 <= k <= obs.len(),
    ensures
        recoverable(obs.take(k), i) <= recoverable(obs, i),
    decreases obs.len(),
{
    if k == obs.len() {
        assert(obs.take(k) =~= obs);
    } else {
        assert(obs.take(k) =~= obs.drop_last().take(k));
        lemma_recoverable_prefix(obs.drop_last(), k, i);
    }
}

/// Neither the stable nor the snap-zone bucket is ever recovered: their zones are in the
/// snap zone.
pub proof fn lemma_snap_zone_buckets_unrecoverable(obs: Seq<CoolingObservation>)
    ensures
        recoverable(obs, 0) == 0,
        recoverable(obs, 1) == 0,
    decreases obs.len(),
{
    if obs.len() > 0 {
        lemma_snap_zone_buckets_unrecoverable(obs.drop_last());
    }
}

/// What resonance recovery leaves: every bucket has its recoveries moved from its
/// failures to its successes, and the hold-zone and high-jitter counts are those buckets'
/// recoveries.
pub proof fn lemma_recovery_closed_form(buckets: Seq<DeltaBucket>, obs: Seq<CoolingObservation>)
    requires
        buckets.len() == BUCKET_COUNT,
        recovery_fits(buckets, obs),
    ensures
        ({
            let (after, hold, high) = recovery_run(buckets, obs);
            &&& after.len() == BUCKET_COUNT
            &&& forall|i: int|
                0 <= i < BUCKET_COUNT ==> (#[trigger] after[i]) == recovered_bucket(
                    buckets[i],
                    recoveries(buckets[i], obs, i),
                )
            &&& hold == recoveries(buckets[2], obs, 2)
            &&& high == recoveries(buckets[3], obs, 3)
        }),
    decreases obs.len(),
{
    if obs.len() == 0 {
        assert forall|i: int| 0 <= i < BUCKET_COUNT implies (#[trigger] buckets[i])
            == recovered_bucket(buckets[i], recoveries(buckets[i], obs, i)) by {}
    } else {
        let pre = obs.drop_last();
        let o = obs.last();
        assert forall|i: int| 0 <= i < BUCKET_COUNT implies #[trigger] buckets[i].successes
            + recoveries(buckets[i], pre, i) <= usize::MAX by {
            assert(buckets[i].successes + recoveries(buckets[i], obs, i) <= usize::MAX);
        }
        lemma_recovery_closed_form(buckets, pre);
        let (b1, h1, j1) = recovery_run(buckets, pre);
        let (b2, h2, j2) = recovery_step(b1, o);
        assert(recovery_run(buckets, obs) == (b2, h1 + h2, j1 + j2));
        assert forall|i: int| 0 <= i < BUCKET_COUNT implies (#[trigger] b2[i]) == recovered_bucket(
            buckets[i],
            recoveries(buckets[i], obs, i),
        ) by {
            assert(b1[i] == recovered_bucket(buckets[i], recoveries(buckets[i], pre, i)));
            assert(buckets[i].successes + recoveries(buckets[i], obs, i) <= usize::MAX);
        }
    }
}

/// Resonance recovery keeps the samples and the sum of successes and failures of every
/// bucket, never touches the stable and snap-zone buckets, and the hold-zone and
/// high-jitter recoveries are exactly the failures those buckets lost.
pub proof fn lemma_recovery_conserves(buckets: Seq<DeltaBucket>, obs: Seq<CoolingObservation>)
    requires
        buckets.len() == BUCKET_COUNT,
        recovery_fits(buckets, obs),
    ensures
        ({
            let (after, hold, high) = recovery_run(buckets, obs);
            &&& after.len() == BUCKET_COUNT
            &&& forall|i: int|
                0 <= i < BUCKET_COUNT ==> {
                    &&& (#[trigger] after[i]).samples == buckets[i].samples
                    &&& after[i].successes + after[i].failures == buckets[i].successes
                        + buckets[i].failures
                    &&& after[i].failures <= buckets[i].failures
                }
            &&& after[0] == buckets[0]
            &&& after[1] == buckets[1]
            &&& hold == buckets[2].failures - after[2].failures
            &&& high == buckets[3].failures - after[3].failures
        }),
{
    lemma_recovery_closed_form(buckets, obs);
    lemma_snap_zone_buckets_unrecoverable(obs);
    let after = recovery_run(buckets, obs).0;
    assert forall|i: int| 0 <= i < BUCKET_COUNT implies {
        &&& (#[trigger] after[i]).samples == buckets[i].samples
        &&& after[i].successes + after[i].failures == buckets[i].successes + buckets[i].failures
        &&& after[i].failures <= buckets[i].failures
    } by {
        assert(after[i] == recovered_bucket(buckets[i], recoveries(buckets[i], obs, i)));
        assert(buckets[i].successes + recoveries(buckets[i], obs, i) <= usize::MAX);
    }
    assert(after[0] == recovered_bucket(buckets[0], recoveries(buckets[0], obs, 0)));
    assert(after[1] == recovered_bucket(buckets[1], recoveries(buckets[1], obs, 1)));
}

/// Every row of the distribution has as many samples as successes and failures together.
pub open spec fn balanced(buckets: Seq<DeltaBucket>) -> bool {
    forall|i: int| 0 <= i < buckets.len() ==> #[trigger] buckets[i].samples == buckets[i].successes
        + buckets[i].failures
}

/// Resonance recovery keeps every balanced row balanced, and leaves a bucket exactly as
/// it was when none of the observations would recover in it.
pub proof fn lemma_recovery_keeps_rows(buckets: Seq<DeltaBucket>, obs: Seq<CoolingObservation>, i: int)
    requires
        buckets.len() == BUCKET_COUNT,
        recovery_fits(buckets, obs),
        0 <= i < BUCKET_COUNT,
    ensures
        balanced(buckets) ==> balanced(recovery_run(buckets, obs).0),
        recoverable(obs, i) == 0 ==> recovery_run(buckets, obs).0[i] == buckets[i],
{
    lemma_recovery_conserves(buckets, obs);
    lemma_recovery_closed_form(buckets, obs);
    let after = recovery_run(buckets, obs).0;
    if balanced(buckets) {
        assert forall|j: int| 0 <= j < after.len() implies #[trigger] after[j].samples
            == after[j].successes + after[j].failures by {
            assert(after[j].samples == buckets[j].samples);
            assert(buckets[j].samples == buckets[j].successes + buckets[j].failures);
        }
    }
    assert(after[i] == recovered_bucket(buckets[i], recoveries(buckets[i], obs, i)));
}

/// Whether bucket `index` holds `zone`.
fn bucket_contains(index: usize, zone: JitterZone) -> (r: bool)
    ensures
        r == (bucket_of(zone) == Some(index)),
{
    match zone {
        JitterZone::Stable => index == 0,
        JitterZone::SnapZone => index == 1,
        JitterZone::HoldZone => index == 2,
        JitterZone::HighJitter => index == 3,
        JitterZone::Incoherent => index == 4,
        _ => false,
    }
}

/// The label of bucket `index`.
pub fn bucket_label(index: usize) -> (r: &'static str)
    requires
        index < BUCKET_COUNT,
    ensures
        r@ == label_of(index as int),
{
    if index == 0 {
        "stable"
    } else if index == 1 {
        "snap-zone"
    } else if index == 2 {
        "hold-zone"
    } else if index == 3 {
        "high-jitter"
    } else {
        "incoherent"
    }
}

/// Five empty buckets.
pub fn initialize_delta_buckets() -> (r: [DeltaBucket; 5])
    ensures
        forall|i: int| 0 <= i < BUCKET_COUNT ==> #[trigger] r@[i] == empty_bucket(),
        r@ == seq![empty_bucket(), empty_bucket(), empty_bucket(), empty_bucket(), empty_bucket()],
{
    let r = [DeltaBucket { samples: 0, successes: 0, failures: 0 }; 5];
    assert(r@ =~= seq![empty_bucket(), empty_bucket(), empty_bucket(), empty_bucket(), empty_bucket()]);
    r
}

/// The index of the first bucket that holds `zone`, if any.
pub fn bucket_index_for_delta(zone: JitterZone) -> (r: Option<usize>)
    ensures
        r == bucket_of(zone),
{
    let mut i: usize = 0;
    while i < BUCKET_COUNT
        invariant
            i <= BUCKET_COUNT,
            forall|k: usize| k < i ==> bucket_of(zone) != Some(k),
        decreases BUCKET_COUNT - i,
    {
        if bucket_contains(i, zone) {
            return Some(i);
        }
        i = i + 1;
    }
    None
}

/// Records one sample in the bucket that holds its zone (if any), as a success or a failure.
pub fn update_delta_bucket(buckets: &mut [DeltaBucket; 5], zone: JitterZone, succeeded: bool)
    requires
        bucket_of(zone) matches Some(i) ==> can_record(old(buckets)@[i as int], succeeded),
    ensures
        final(buckets)@ == record_sample(old(buckets)@, zone, succeeded),
{
    if let Some(i) = bucket_index_for_delta(zone) {
        let b = buckets[i];
        buckets[i] = DeltaBucket {
            samples: b.samples + 1,
            successes: if succeeded {
                b.successes + 1
            } else {
                b.successes
            },
            failures: if succeeded {
                b.failures
            } else {
                b.failures + 1
            },
        };
    }
}

/// The counts of the LCC core benchmark path over the samples' jitter zones: every sample
/// is a tensor anchored at 6, operated on below the thermal threshold; a success is an
/// exact match, and each sample is recorded in the delta distribution.
pub fn tally_lcc_core_path(zones: &Vec<JitterZone>) -> (r: (LccCoreTally, [DeltaBucket; 5]))
    ensures
        ({
            let (exact, failures, buckets) = core_tally(zones@);
            &&& r.0.exact_matches == exact
            &&& r.0.failures == failures
            &&& r.1@ == buckets
        }),
        r.0.exact_matches + r.0.failures == zones@.len(),
{
    let mut tally = LccCoreTally { exact_matches: 0, failures: 0 };
    let mut buckets = initialize_delta_buckets();
    let mut i: usize = 0;
    while i < zones.len()
        invariant
            i <= zones@.len(),
            ({
                let (exact, failures, bs) = core_tally(zones@.take(i as int));
                &&& tally.exact_matches == exact
                &&& tally.failures == failures
                &&& buckets@ == bs
            }),
            tally.exact_matches + tally.failures == i,
            forall|k: int|
                0 <= k < BUCKET_COUNT ==> #[trigger] buckets@[k].samples <= i
                    && buckets@[k].successes <= buckets@[k].samples && buckets@[k].failures
                    <= buckets@[k].samples,
        decreases zones@.len() - i,
    {
        let zone = zones[i];
        assert(zones@.take(i + 1).drop_last() =~= zones@.take(i as int));
        assert(zones@.take(i + 1).last() == zone);
        let tensor = BipartiteTensor { anchor: 6, jitter: zone };
        match lcc_core_operation(tensor, false) {
            Ok(anchor) => {
                if anchor == 6 {
                    tally.exact_matches = tally.exact_matches + 1;
                }
                update_delta_bucket(&mut buckets, zone, true);
            },
            Err(_) => {
                tally.failures = tally.failures + 1;
                update_delta_bucket(&mut buckets, zone, false);
            },
        }
        i = i + 1;
    }
    assert(zones@.take(zones@.len() as int) =~= zones@);
    (tally, buckets)
}

/// Whether resonance recovery of `buckets` by `observations` keeps every success count
/// within `usize::MAX`, as `apply_resonance_recovery` requires.
pub fn resonance_recovery_fits(buckets: &[DeltaBucket; 5], observations: &Vec<CoolingObservation>) -> (r:
    bool)
    ensures
        r == recovery_fits(buckets@, observations@),
{
    let mut counts: [usize; 5] = [0; 5];
    let mut index: usize = 0;
    while index < observations.len()
        invariant
            index <= observations@.len(),
            forall|i: int|
                0 <= i < BUCKET_COUNT ==> #[trigger] counts@[i] == recoverable(
                    observations@.take(index as int),
                    i,
                ),
            forall|i: int| 0 <= i < BUCKET_COUNT ==> #[trigger] counts@[i] <= index,
        decreases observations@.len() - index,
    {
        let ghost prefix = observations@.take(index as int);
        let ghost next = observations@.take(index + 1);
        assert(next.drop_last() =~= prefix);
        let obs = observations[index];
        assert(next.last() == obs);
        if !obs.zone.is_below_snap() && !obs.cooled.is_at_or_above_snap() {
            if let Some(i) = bucket_index_for_delta(obs.zone) {
                counts[i] = counts[i] + 1;
            }
        }
        index = index + 1;
        assert forall|i: int| 0 <= i < BUCKET_COUNT implies #[trigger] counts@[i] == recoverable(
            next,
            i,
        ) by {}
    }
    assert(observations@.take(observations@.len() as int) =~= observations@);
    let mut i: usize = 0;
    while i < BUCKET_COUNT
        invariant
            i <= BUCKET_COUNT,
            forall|k: int| 0 <= k < BUCKET_COUNT ==> #[trigger] counts@[k] == recoverable(observations@, k),
            forall|k: int|
                0 <= k < i ==> #[trigger] buckets@[k].successes + recoveries(buckets@[k], observations@, k)
                    <= usize::MAX,
        decreases BUCKET_COUNT - i,
    {
        let b = buckets[i];
        let recovered = if b.failures <= counts[i] {
            b.failures
        } else {
            counts[i]
        };
        if b.successes > usize::MAX - recovered {
            return false;
        }
        i = i + 1;
    }
    true
}

/// Resonance recovery of the hold-zone and high-jitter samples by a TAD scaffold.
///
/// For each sample outside the snap zone whose cooled jitter no longer reaches the snap
/// zone, one failure of the sample's bucket (when it has one) becomes a success. The result
/// counts such recoveries in the hold-zone and in the high-jitter bucket. A success count
/// must not pass `usize::MAX` on the way.
pub fn apply_resonance_recovery(
    buckets: &mut [DeltaBucket; 5],
    observations: &Vec<CoolingObservation>,
) -> (r: (usize, usize))
    requires
        recovery_fits(old(buckets)@, observations@),
    ensures
        ({
            let (after, hold, high) = recovery_run(old(buckets)@, observations@);
            &&& final(buckets)@ == after
            &&& r.0 == hold
            &&& r.1 == high
        }),
        forall|i: int|
            0 <= i < BUCKET_COUNT ==> (#[trigger] final(buckets)@[i]) == recovered_bucket(
                old(buckets)@[i],
                recoveries(old(buckets)@[i], observations@, i),
            ),
        forall|i: int|
            0 <= i < BUCKET_COUNT ==> {
                &&& (#[trigger] final(buckets)@[i]).samples == old(buckets)@[i].samples
                &&& final(buckets)@[i].successes + final(buckets)@[i].failures == old(
                    buckets,
                )@[i].successes + old(buckets)@[i].failures
                &&& final(buckets)@[i].failures <= old(buckets)@[i].failures
            },
        final(buckets)@[0] == old(buckets)@[0],
        final(buckets)@[1] == old(buckets)@[1],
        r.0 == old(buckets)@[2].failures - final(buckets)@[2].failures,
        r.1 == old(buckets)@[3].failures - final(buckets)@[3].failures,
{
    let ghost start = buckets@;
    let mut recovered_hold_zone: usize = 0;
    let mut recovered_high_jitter: usize = 0;
    let mut index: usize = 0;
    while index < observations.len()
        invariant
            index <= observations@.len(),
            start == old(buckets)@,
            start.len() == BUCKET_COUNT,
            recovery_fits(start, observations@),
            ({
                let (after, hold, high) = recovery_run(start, observations@.take(index as int));
                &&& buckets@ == after
                &&& recovered_hold_zone == hold
                &&& recovered_high_jitter == high
            }),
            recovered_hold_zone + recovered_high_jitter <= index,
        decreases observations@.len() - index,
    {
        let ghost prefix = observations@.take(index as int);
        let ghost next = observations@.take(index + 1);
        assert(next.drop_last() =~= prefix);
        let obs = observations[index];
        assert(next.last() == obs);
        proof {
            assert forall|i: int| 0 <= i < BUCKET_COUNT implies #[trigger] start[i].successes
                + recoveries(start[i], next, i) <= usize::MAX by {
                lemma_recoverable_prefix(observations@, index + 1, i);
                assert(start[i].successes + recoveries(start[i], observations@, i) <= usize::MAX);
            }
            assert forall|i: int| 0 <= i < BUCKET_COUNT implies #[trigger] start[i].successes
                + recoveries(start[i], prefix, i) <= usize::MAX by {
                lemma_recoverable_prefix(observations@, index as int, i);
                assert(start[i].successes + recoveries(start[i], observations@, i) <= usize::MAX);
            }
            lemma_recovery_closed_form(start, prefix);
            lemma_recovery_closed_form(start, next);
        }
        index = index + 1;
        if obs.zone.is_below_snap() {
            continue;
        }
        if obs.cooled.is_at_or_above_snap() {
            continue;
        }
        if let Some(bucket_index) = bucket_index_for_delta(obs.zone) {
            let b = buckets[bucket_index];
            if b.failures > 0 {
                proof {
                    let j = bucket_index as int;
                    assert(recovers_in(obs, j));
                    assert(recoverable(next, j) == recoverable(prefix, j) + 1);
                    assert(b == recovered_bucket(start[j], recoveries(start[j], prefix, j)));
                    assert(start[j].successes + recoveries(start[j], next, j) <= usize::MAX);
                }
                buckets[bucket_index] = DeltaBucket {
                    samples: b.samples,
                    successes: b.successes + 1,
                    failures: b.failures - 1,
                };
                if bucket_index == 2 {
                    recovered_hold_zone = recovered_hold_zone + 1;
                } else if bucket_index == 3 {
                    recovered_high_jitter = recovered_high_jitter + 1;
                }
            }
        }
    }
    assert(observations@.take(observations@.len() as int) =~= observations@);
    proof {
        lemma_recovery_closed_form(start, observations@);
        lemma_recovery_conserves(start, observations@);
    }
    (recovered_hold_zone, recovered_high_jitter)
}

} // verus!
