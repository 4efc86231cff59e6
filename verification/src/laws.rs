//! Laws that relate the library's operations to one another.
use crate::bridge::heartbeat_budget;
use crate::buckets::{balanced, bucket_of, core_tally, record_sample, BUCKET_COUNT, DeltaBucket};
use crate::primes::{lemma_gcd_of_primes, prime};
use crate::solver::{
    core_operation, interference, protocol_result, snap_protocol, tad_assisted_result,
    BipartiteTensor, ErrorState, SnapProtocol,
};
use crate::zone::JitterZone;
use vstd::prelude::*;

verus! {

/// The bare LCC core operation returns exactly what the finalization snap of the solver
/// returns for the same tensor at the same thermal state.
pub proof fn lemma_core_operation_matches_finalization_snap(
    tensor: BipartiteTensor,
    thermal_overloaded: bool,
)
    ensures
        core_operation(tensor, thermal_overloaded) == protocol_result(
            snap_protocol(tensor.jitter, thermal_overloaded),
            tensor.anchor,
        ),
{
}

/// A TAD only widens the snap zone: outside a TAD the assisted snap succeeds exactly when
/// the finalization snap takes its snap branch, and whatever snaps outside a TAD snaps
/// inside one, to the same anchor.
pub proof fn lemma_tad_widens_snap_zone(tensor: BipartiteTensor, thermal_overloaded: bool)
    ensures
        (tad_assisted_result(tensor, false) is Ok) == (snap_protocol(
            tensor.jitter,
            thermal_overloaded,
        ) is Snap),
        tad_assisted_result(tensor, false) is Ok ==> tad_assisted_result(tensor, true)
            == tad_assisted_result(tensor, false),
        tad_assisted_result(tensor, true) is Ok ==> tad_assisted_result(tensor, true) == Ok::<
            u32,
            ErrorState,
        >(tensor.anchor),
{
}

/// The node that the finalization snap leaves behind.
pub open spec fn after_finalization(tensor: BipartiteTensor, thermal_overloaded: bool) -> BipartiteTensor {
    if snap_protocol(tensor.jitter, thermal_overloaded) is Sublimation {
        BipartiteTensor { anchor: tensor.anchor, jitter: JitterZone::Infinite }
    } else {
        tensor
    }
}

/// Repeating the finalization snap at the same thermal state takes the same branch and
/// returns the same result: a sublimated node stays incoherent and keeps its anchor.
pub proof fn lemma_finalization_snap_repeatable(tensor: BipartiteTensor, thermal_overloaded: bool)
    ensures
        ({
            let again = after_finalization(tensor, thermal_overloaded);
            &&& snap_protocol(again.jitter, thermal_overloaded) == snap_protocol(
                tensor.jitter,
                thermal_overloaded,
            )
            &&& again.anchor == tensor.anchor
            &&& protocol_result(snap_protocol(again.jitter, thermal_overloaded), again.anchor)
                == protocol_result(snap_protocol(tensor.jitter, thermal_overloaded), tensor.anchor)
        }),
{
}

/// A node locked at zero jitter (as a TAD-bridge snap leaves it) snaps to its anchor at
/// any thermal load.
pub proof fn lemma_locked_node_snaps(anchor: u32, thermal_overloaded: bool)
    ensures
        snap_protocol(JitterZone::Stable, thermal_overloaded) == SnapProtocol::Snap,
        protocol_result(SnapProtocol::Snap, anchor) == Ok::<u32, ErrorState>(anchor),
{
}

/// Interference is symmetric in its two anchors.
pub proof fn lemma_interference_symmetric(p1: u32, p2: u32)
    ensures
        interference(p1, p2) == interference(p2, p1),
{
    if prime(p1 as nat) && prime(p2 as nat) {
        lemma_gcd_of_primes(p1 as nat, p2 as nat);
        lemma_gcd_of_primes(p2 as nat, p1 as nat);
    }
}

/// The buckets follow the thresholds: the snap zone is made of the first two buckets,
/// the rest of the buckets lie at or above pi/6, incoherent jitter fills the last bucket
/// unless it is infinite, and only negative, infinite or undefined jitter is in no bucket.
pub proof fn lemma_buckets_follow_thresholds(zone: JitterZone)
    ensures
        bucket_of(zone) matches Some(i) ==> i < BUCKET_COUNT,
        bucket_of(zone) matches Some(i) ==> (zone.below_snap() <==> i < 2),
        bucket_of(zone) matches Some(i) ==> (zone.at_or_above_snap() <==> i >= 2),
        bucket_of(zone) matches Some(i) ==> (zone.incoherent() <==> i == 4),
        bucket_of(zone) is None <==> (zone is Negative || zone is Infinite || zone is Undefined),
{
}

/// The samples held by five buckets.
pub open spec fn total_samples(buckets: Seq<DeltaBucket>) -> int {
    buckets[0].samples + buckets[1].samples + buckets[2].samples + buckets[3].samples
        + buckets[4].samples
}

/// Recording a sample adds one to the samples of the distribution exactly when its zone
/// lies in a bucket, and it lands in the successes or failures as it succeeded or failed.
pub proof fn lemma_record_adds_one(buckets: Seq<DeltaBucket>, zone: JitterZone, succeeded: bool)
    requires
        buckets.len() == BUCKET_COUNT,
        forall|i: int|
            0 <= i < BUCKET_COUNT ==> (#[trigger] buckets[i]).samples < usize::MAX
                && buckets[i].successes < usize::MAX && buckets[i].failures < usize::MAX,
    ensures
        total_samples(record_sample(buckets, zone, succeeded)) == total_samples(buckets) + (if bucket_of(
            zone,
        ) is Some {
            1int
        } else {
            0int
        }),
        balanced(buckets) ==> balanced(record_sample(buckets, zone, succeeded)),
        bucket_of(zone) matches Some(i) ==> {
            let after = record_sample(buckets, zone, succeeded);
            &&& after[i as int].successes == buckets[i as int].successes + (if succeeded {
                1int
            } else {
                0int
            })
            &&& after[i as int].failures == buckets[i as int].failures + (if succeeded {
                0int
            } else {
                1int
            })
        },
{
    match bucket_of(zone) {
        Some(i) => {
            let b = buckets[i as int];
            assert(b.samples < usize::MAX);
            let after = record_sample(buckets, zone, succeeded);
            if balanced(buckets) {
                assert forall|j: int| 0 <= j < after.len() implies #[trigger] after[j].samples
                    == after[j].successes + after[j].failures by {
                    assert(buckets[j].samples == buckets[j].successes + buckets[j].failures);
                }
            }
        },
        None => {},
    }
}

/// The number of zones in the snap zone.
pub open spec fn count_below_snap(zones: Seq<JitterZone>) -> nat
    decreases zones.len(),
{
    if zones.len() == 0 {
        0
    } else {
        count_below_snap(zones.drop_last()) + if zones.last().below_snap() {
            1nat
        } else {
            0nat
        }
    }
}

/// Below the thermal threshold the LCC core path matches exactly the samples in the snap
/// zone, and fails all the others.
pub proof fn lemma_core_tally_matches_snap_zone(zones: Seq<JitterZone>)
    ensures
        core_tally(zones).0 == count_below_snap(zones),
        core_tally(zones).1 == zones.len() - count_below_snap(zones),
    decreases zones.len(),
{
    if zones.len() > 0 {
        lemma_core_tally_matches_snap_zone(zones.drop_last());
    }
}

/// Heavier primes afford more cycles: a node's heartbeat budget on the TAD-bridge never
/// shrinks as its anchor grows.
pub proof fn lemma_heavier_anchor_more_heartbeats(lighter: BipartiteTensor, heavier: BipartiteTensor)
    requires
        lighter.anchor <= heavier.anchor,
    ensures
        heartbeat_budget(lighter) <= heartbeat_budget(heavier),
{
}

/// The lattice after a run of finalization snaps, each on a node `id` at a thermal state.
pub open spec fn finalization_run(lattice: Seq<BipartiteTensor>, calls: Seq<(usize, bool)>) -> Seq<
    BipartiteTensor,
>
    decreases calls.len(),
{
    if calls.len() == 0 {
        lattice
    } else {
        let before = finalization_run(lattice, calls.drop_last());
        let (id, thermal_overloaded) = calls.last();
        if id < before.len() {
            before.update(id as int, after_finalization(before[id as int], thermal_overloaded))
        } else {
            before
        }
    }
}

/// No run of finalization snaps changes an anchor, nor the size of the lattice.
pub proof fn lemma_finalization_run_keeps_anchors(
    lattice: Seq<BipartiteTensor>,
    calls: Seq<(usize, bool)>,
)
    ensures
        finalization_run(lattice, calls).len() == lattice.len(),
        forall|j: int|
            0 <= j < lattice.len() ==> (#[trigger] finalization_run(lattice, calls)[j]).anchor
                == lattice[j].anchor,
    decreases calls.len(),
{
    if calls.len() > 0 {
        lemma_finalization_run_keeps_anchors(lattice, calls.drop_last());
    }
}

/// A shattered jitter segment stays shattered: below the thermal threshold each snap of it
/// sublimates again with `IncoherentNoise`, and over the threshold each snap shears it off
/// to its anchor.
pub proof fn lemma_shattered_node_results(anchor: u32)
    ensures
        snap_protocol(JitterZone::Infinite, false) == SnapProtocol::Sublimation,
        after_finalization((BipartiteTensor { anchor, jitter: JitterZone::Infinite }), false)
            == (BipartiteTensor { anchor, jitter: JitterZone::Infinite }),
        protocol_result(snap_protocol(JitterZone::Infinite, false), anchor) == Err::<
            u32,
            ErrorState,
        >(ErrorState::IncoherentNoise),
        protocol_result(snap_protocol(JitterZone::Infinite, true), anchor) == Ok::<
            u32,
            ErrorState,
        >(anchor),
{
}

/// Over the thermal threshold every finalization snap returns the node's anchor.
pub proof fn lemma_overloaded_snap_returns_anchor(tensor: BipartiteTensor)
    ensures
        protocol_result(snap_protocol(tensor.jitter, true), tensor.anchor) == Ok::<u32, ErrorState>(
            tensor.anchor,
        ),
{
}

/// The number of anchors (of 6) that finalization snaps at a fixed thermal state return
/// over a run of samples.
pub open spec fn api_successes(zones: Seq<JitterZone>, thermal_overloaded: bool) -> nat
    decreases zones.len(),
{
    if zones.len() == 0 {
        0
    } else {
        api_successes(zones.drop_last(), thermal_overloaded) + if protocol_result(
            snap_protocol(zones.last(), thermal_overloaded),
            6,
        ) is Ok {
            1nat
        } else {
            0nat
        }
    }
}

/// Below the thermal threshold, snapping the samples one by one returns as many anchors as
/// the LCC core path counts exact matches; and when no sample is incoherent no snap
/// sublimates, so nothing can raise the thermal load.
pub proof fn lemma_api_run_matches_core_tally(zones: Seq<JitterZone>)
    ensures
        api_successes(zones, false) == core_tally(zones).0,
        (forall|k: int| 0 <= k < zones.len() ==> !(#[trigger] zones[k]).incoherent()) ==> (forall|
            k: int,
        | 0 <= k < zones.len() ==> !(snap_protocol(#[trigger] zones[k], false) is Sublimation)),
    decreases zones.len(),
{
    if zones.len() > 0 {
        lemma_api_run_matches_core_tally(zones.drop_last());
    }
}

} // verus!
