use crystal_engine::buckets::{
    apply_resonance_recovery, bucket_index_for_delta, bucket_label, initialize_delta_buckets,
    resonance_recovery_fits,
    tally_lcc_core_path, update_delta_bucket, CoolingObservation, DeltaBucket, LccCoreTally,
};
use crystal_engine::recovery::{
    base_boost_percent, profile_name, summarize_tad_bridge, tally_maximum_recovery,
    RecoveryProfile, RecoveryTally, TadBridgeSummary,
};
use crystal_engine::zone::JitterZone;

const ALL_ZONES: [JitterZone; 8] = [
    JitterZone::Negative,
    JitterZone::Stable,
    JitterZone::SnapZone,
    JitterZone::HoldZone,
    JitterZone::HighJitter,
    JitterZone::Incoherent,
    JitterZone::Infinite,
    JitterZone::Undefined,
];

fn bucket(samples: usize, successes: usize, failures: usize) -> DeltaBucket {
    DeltaBucket { samples, successes, failures }
}

#[test]
fn buckets_start_empty_with_labels() {
    let buckets = initialize_delta_buckets();
    assert_eq!(buckets, [bucket(0, 0, 0); 5]);
    let labels: Vec<&str> = (0..5).map(bucket_label).collect();
    assert_eq!(
        labels,
        vec!["stable", "snap-zone", "hold-zone", "high-jitter", "incoherent"]
    );
}

#[test]
fn bucket_index_follows_zones() {
    let indices: Vec<Option<usize>> = ALL_ZONES.iter().map(|z| bucket_index_for_delta(*z)).collect();
    assert_eq!(
        indices,
        vec![None, Some(0), Some(1), Some(2), Some(3), Some(4), None, None]
    );
}

#[test]
fn update_records_in_the_right_bucket() {
    let mut buckets = initialize_delta_buckets();
    update_delta_bucket(&mut buckets, JitterZone::HoldZone, false);
    update_delta_bucket(&mut buckets, JitterZone::HoldZone, true);
    update_delta_bucket(&mut buckets, JitterZone::Stable, true);
    update_delta_bucket(&mut buckets, JitterZone::Negative, true);
    update_delta_bucket(&mut buckets, JitterZone::Infinite, false);
    assert_eq!(
        buckets,
        [bucket(1, 1, 0), bucket(0, 0, 0), bucket(2, 1, 1), bucket(0, 0, 0), bucket(0, 0, 0)]
    );
}

#[test]
fn core_tally_counts_snap_zone_as_matches() {
    let zones = vec![
        JitterZone::Stable,
        JitterZone::SnapZone,
        JitterZone::HoldZone,
        JitterZone::HighJitter,
        JitterZone::HoldZone,
        JitterZone::Incoherent,
        JitterZone::Negative,
        JitterZone::Undefined,
    ];
    let (tally, buckets) = tally_lcc_core_path(&zones);
    assert_eq!(tally, LccCoreTally { exact_matches: 3, failures: 5 });
    assert_eq!(
        buckets,
        [bucket(1, 1, 0), bucket(1, 1, 0), bucket(2, 0, 2), bucket(1, 0, 1), bucket(1, 0, 1)]
    );
}

#[test]
fn core_tally_of_nothing() {
    let (tally, buckets) = tally_lcc_core_path(&vec![]);
    assert_eq!(tally, LccCoreTally { exact_matches: 0, failures: 0 });
    assert_eq!(buckets, [bucket(0, 0, 0); 5]);
}

fn obs(zone: JitterZone, cooled: JitterZone) -> CoolingObservation {
    CoolingObservation { zone, cooled }
}

#[test]
fn resonance_recovery_moves_failures_to_successes() {
    let mut buckets = [bucket(4, 4, 0), bucket(3, 2, 1), bucket(5, 1, 4), bucket(2, 0, 2), bucket(1, 0, 1)];
    let observations = vec![
        obs(JitterZone::HoldZone, JitterZone::SnapZone),
        obs(JitterZone::HoldZone, JitterZone::Stable),
        obs(JitterZone::HoldZone, JitterZone::HoldZone),
        obs(JitterZone::HighJitter, JitterZone::SnapZone),
        obs(JitterZone::HighJitter, JitterZone::SnapZone),
        obs(JitterZone::HighJitter, JitterZone::SnapZone),
        obs(JitterZone::SnapZone, JitterZone::Stable),
        obs(JitterZone::Incoherent, JitterZone::SnapZone),
        obs(JitterZone::Infinite, JitterZone::SnapZone),
        obs(JitterZone::HoldZone, JitterZone::Undefined),
    ];
    let (hold, high) = apply_resonance_recovery(&mut buckets, &observations);
    assert_eq!((hold, high), (3, 2));
    assert_eq!(
        buckets,
        [bucket(4, 4, 0), bucket(3, 2, 1), bucket(5, 4, 1), bucket(2, 2, 0), bucket(1, 1, 0)]
    );
}

#[test]
fn resonance_recovery_without_failures_changes_nothing() {
    let mut buckets = [bucket(1, 1, 0); 5];
    let observations = vec![obs(JitterZone::HoldZone, JitterZone::Stable)];
    assert_eq!(apply_resonance_recovery(&mut buckets, &observations), (0, 0));
    assert_eq!(buckets, [bucket(1, 1, 0); 5]);
}

#[test]
fn profile_names() {
    assert_eq!(profile_name(RecoveryProfile::Conservative), "Conservative");
    assert_eq!(profile_name(RecoveryProfile::Balanced), "Balanced");
    assert_eq!(profile_name(RecoveryProfile::Aggressive), "Aggressive");
}

#[test]
fn base_boost_bands() {
    assert_eq!(base_boost_percent(RecoveryProfile::Conservative, true), 30);
    assert_eq!(base_boost_percent(RecoveryProfile::Conservative, false), 18);
    assert_eq!(base_boost_percent(RecoveryProfile::Balanced, true), 38);
    assert_eq!(base_boost_percent(RecoveryProfile::Balanced, false), 26);
    assert_eq!(base_boost_percent(RecoveryProfile::Aggressive, true), 46);
    assert_eq!(base_boost_percent(RecoveryProfile::Aggressive, false), 34);
    assert_eq!(30.0_f32 / 100.0, 0.30_f32);
}

#[test]
fn maximum_recovery_tally() {
    let observations = vec![
        obs(JitterZone::Stable, JitterZone::Stable),
        obs(JitterZone::Negative, JitterZone::Negative),
        obs(JitterZone::HoldZone, JitterZone::SnapZone),
        obs(JitterZone::HighJitter, JitterZone::HoldZone),
        obs(JitterZone::HighJitter, JitterZone::Stable),
        obs(JitterZone::Undefined, JitterZone::Undefined),
    ];
    assert_eq!(
        tally_maximum_recovery(&observations),
        RecoveryTally {
            baseline_successes: 2,
            baseline_failures: 4,
            recovered_in_round_2: 2,
            final_failures: 2,
            final_successes: 4,
        }
    );
}

#[test]
fn tad_bridge_summary_saturates() {
    assert_eq!(
        summarize_tad_bridge(10, 5, 2, 1),
        TadBridgeSummary { recovered_total: 3, tad_exact_matches: 13, tad_failures: 2 }
    );
    assert_eq!(
        summarize_tad_bridge(10, 2, 2, 1),
        TadBridgeSummary { recovered_total: 3, tad_exact_matches: 13, tad_failures: 0 }
    );
}

#[test]
fn recovery_keeps_rows_balanced_and_untouched_zones_equal() {
    let mut buckets = [bucket(3, 1, 2), bucket(2, 1, 1), bucket(4, 0, 4), bucket(3, 1, 2), bucket(1, 0, 1)];
    let before = buckets;
    // high-jitter samples stay at or above the snap zone once cooled
    let observations = vec![
        obs(JitterZone::HighJitter, JitterZone::HoldZone),
        obs(JitterZone::HoldZone, JitterZone::SnapZone),
        obs(JitterZone::HighJitter, JitterZone::HighJitter),
    ];
    assert_eq!(apply_resonance_recovery(&mut buckets, &observations), (1, 0));
    for i in [0, 1, 3, 4] {
        assert_eq!(buckets[i], before[i]);
    }
    assert_eq!(buckets[2], bucket(4, 1, 3));
    for b in buckets {
        assert_eq!(b.samples, b.successes + b.failures);
    }
}

#[test]
fn recovery_fit_counts_only_recoverable_observations() {
    let observations = vec![
        obs(JitterZone::HoldZone, JitterZone::SnapZone),
        obs(JitterZone::HoldZone, JitterZone::HoldZone),
        obs(JitterZone::Stable, JitterZone::Stable),
    ];
    // a full success count with failures left fails only where a recovery would land
    let mut buckets = [bucket(0, 0, 0); 5];
    buckets[2] = DeltaBucket { samples: usize::MAX, successes: usize::MAX - 1, failures: 1 };
    assert!(resonance_recovery_fits(&buckets, &observations));
    buckets[2] = DeltaBucket { samples: usize::MAX, successes: usize::MAX, failures: 1 };
    assert!(!resonance_recovery_fits(&buckets, &observations));
    buckets[2] = bucket(0, 0, 0);
    buckets[3] = DeltaBucket { samples: usize::MAX, successes: usize::MAX, failures: 5 };
    assert!(resonance_recovery_fits(&buckets, &observations));
    // successes near the limit are fine when no failure is left to recover
    buckets[2] = DeltaBucket { samples: usize::MAX, successes: usize::MAX, failures: 0 };
    assert!(resonance_recovery_fits(&buckets, &observations));
    let mut fitting = [bucket(0, 0, 0); 5];
    fitting[2] = DeltaBucket { samples: usize::MAX, successes: usize::MAX - 1, failures: 1 };
    assert_eq!(apply_resonance_recovery(&mut fitting, &observations), (1, 0));
    assert_eq!(fitting[2].successes, usize::MAX);
}
