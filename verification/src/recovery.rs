//! Adaptive boundary recovery: recovery profiles, their boost bands, and the tallies of the
//! recovery reports.
use crate::buckets::CoolingObservation;
use vstd::prelude::*;

verus! {

/// How hard round two of adaptive boundary recovery pushes.
#[derive(Debug, Clone, Copy, PartialEq, Eq, Structural)]
pub enum RecoveryProfile {
    Conservative,
    Balanced,
    Aggressive,
}

/// The counts of the maximum recovery test.
#[derive(Debug, Clone, Copy, PartialEq, Eq, Structural)]
pub struct RecoveryTally {
    /// Samples that snapped in round one.
    pub baseline_successes: usize,
    /// Samples that failed round one.
    pub baseline_failures: usize,
    /// Failed samples that round two recovered.
    pub recovered_in_round_2: usize,
    /// Failed samples that round two did not recover.
    pub final_failures: usize,
    /// Samples that snapped in either round.
    pub final_successes: usize,
}

/// The outcome of the TAD-bridge report: what the recoveries change in the baseline.
#[derive(Debug, Clone, Copy, PartialEq, Eq, Structural)]
pub struct TadBridgeSummary {
    pub recovered_total: usize,
    pub tad_exact_matches: usize,
    pub tad_failures: usize,
}

/// The name of a profile.
pub open spec fn profile_label(profile: RecoveryProfile) -> Seq<char> {
    match profile {
        RecoveryProfile::Conservative => "Conservative"@,
        RecoveryProfile::Balanced => "Balanced"@,
        RecoveryProfile::Aggressive => "Aggressive"@,
    }
}

/// The base boost of a profile in hundredths, for jitter above pi/4 or not.
pub open spec fn base_boost(profile: RecoveryProfile, above_quarter_pi: bool) -> u32 {
    match profile {
        RecoveryProfile::Conservative => if above_quarter_pi {
            30
        } else {
            18
        },
        RecoveryProfile::Balanced => if above_quarter_pi {
            38
        } else {
            26
        },
        RecoveryProfile::Aggressive => if above_quarter_pi {
            46
        } else {
            34
        },
    }
}

/// The counts of the maximum recovery test over `obs`: (baseline successes, baseline
/// failures, recovered in round two, final failures). A sample succeeds in round one when
/// its jitter is in the snap zone; a failed sample is recovered when its jitter, cooled by
/// the adaptive boost, is in the snap zone.
pub open spec fn max_recovery_counts(obs: Seq<CoolingObservation>) -> (nat, nat, nat, nat)
    decreases obs.len(),
{
    if obs.len() == 0 {
        (0, 0, 0, 0)
    } else {
        let (s, f, rec, ff) = max_recovery_counts(obs.drop_last());
        let o = obs.last();
        if o.zone.below_snap() {
            (s + 1, f, rec, ff)
        } else if o.cooled.below_snap() {
            (s, f + 1, rec + 1, ff)
        } else {
            (s, f + 1, rec, ff + 1)
        }
    }
}

/// Every sample is a baseline success or failure, and every failure is recovered or final.
pub proof fn lemma_max_recovery_partition(obs: Seq<CoolingObservation>)
    ensures
        ({
            let (s, f, rec, ff) = max_recovery_counts(obs);
            &&& s + f == obs.len()
            &&& rec + ff == f
        }),
    decreases obs.len(),
{
    if obs.len() > 0 {
        lemma_max_recovery_partition(obs.drop_last());
    }
}

/// The name of a recovery profile.
pub fn profile_name(profile: RecoveryProfile) -> (r: &'static str)
    ensures
        r@ == profile_label(profile),
{
    match profile {
        RecoveryProfile::Conservative => "Conservative",
        RecoveryProfile::Balanced => "Balanced",
        RecoveryProfile::Aggressive => "Aggressive",
    }
}

/// The base of a profile's adaptive boost, in hundredths: the band for jitter above pi/4
/// lies twelve hundredths above the band for the rest, and each profile lies eight
/// hundredths above the previous one.
pub fn base_boost_percent(profile: RecoveryProfile, above_quarter_pi: bool) -> (r: u32)
    ensures
        r == base_boost(profile, above_quarter_pi),
{
    match profile {
        RecoveryProfile::Conservative => {
            if above_quarter_pi {
                30
            } else {
                18
            }
        },
        RecoveryProfile::Balanced => {
            if above_quarter_pi {
                38
            } else {
                26
            }
        },
        RecoveryProfile::Aggressive => {
            if above_quarter_pi {
                46
            } else {
                34
            }
        },
    }
}

/// The counts of the maximum recovery test over the samples' observations.
pub fn tally_maximum_recovery(observations: &Vec<CoolingObservation>) -> (r: RecoveryTally)
    ensures
        ({
            let (s, f, rec, ff) = max_recovery_counts(observations@);
            &&& r.baseline_successes == s
            &&& r.baseline_failures == f
            &&& r.recovered_in_round_2 == rec
            &&& r.final_failures == ff
        }),
        r.final_successes == r.baseline_successes + r.recovered_in_round_2,
        r.baseline_successes + r.baseline_failures == observations@.len(),
        r.recovered_in_round_2 + r.final_failures == r.baseline_failures,
        r.final_successes + r.final_failures == observations@.len(),
{
    let mut baseline_successes: usize = 0;
    let mut baseline_failures: usize = 0;
    let mut recovered_in_round_2: usize = 0;
    let mut final_failures: usize = 0;
    let mut index: usize = 0;
    while index < observations.len()
        invariant
            index <= observations@.len(),
            ({
                let (s, f, rec, ff) = max_recovery_counts(observations@.take(index as int));
                &&& baseline_successes == s
                &&& baseline_failures == f
                &&& recovered_in_round_2 == rec
                &&& final_failures == ff
            }),
            baseline_successes + baseline_failures == index,
            recovered_in_round_2 + final_failures == baseline_failures,
        decreases observations@.len() - index,
    {
        let obs = observations[index];
        assert(observations@.take(index + 1).drop_last() =~= observations@.take(index as int));
        assert(observations@.take(index + 1).last() == obs);
        index = index + 1;
        if obs.zone.is_below_snap() {
            baseline_successes = baseline_successes + 1;
            continue;
        }
        baseline_failures = baseline_failures + 1;
        if obs.cooled.is_below_snap() {
            recovered_in_round_2 = recovered_in_round_2 + 1;
        } else {
            final_failures = final_failures + 1;
        }
    }
    assert(observations@.take(observations@.len() as int) =~= observations@);
    RecoveryTally {
        baseline_successes,
        baseline_failures,
        recovered_in_round_2,
        final_failures,
        final_successes: baseline_successes + recovered_in_round_2,
    }
}

/// The TAD-bridge report's counts: the recoveries in the hold-zone and the high-jitter
/// bucket are added to the baseline's exact matches and taken from its failures (down to
/// zero at most).
pub fn summarize_tad_bridge(
    exact_matches_before: usize,
    failures_before: usize,
    recovered_hold_zone: usize,
    recovered_high_jitter: usize,
) -> (r: TadBridgeSummary)
    requires
        exact_matches_before + recovered_hold_zone + recovered_high_jitter <= usize::MAX,
    ensures
        r.recovered_total == recovered_hold_zone + recovered_high_jitter,
        r.tad_exact_matches == exact_matches_before + r.recovered_total,
        r.tad_failures == (if failures_before >= r.recovered_total {
            failures_before - r.recovered_total
        } else {
            0
        }),
{
    let recovered_total = recovered_hold_zone + recovered_high_jitter;
    TadBridgeSummary {
        recovered_total,
        tad_exact_matches: exact_matches_before + recovered_total,
        tad_failures: failures_before.saturating_sub(recovered_total),
    }
}

} // verus!
