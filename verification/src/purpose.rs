//! Laws that say what each operation is for, in terms of its inputs and the zone
//! thresholds (pi/6, pi/4, pi/3), independently of how the operation is written down.
use crate::bridge::{after_step, next_step, BridgeStep};
use crate::buckets::{
    bucket_of, core_tally, label_of, lemma_recovery_closed_form, recoverable, recoveries,
    recovery_fits, recovery_run, CoolingObservation, DeltaBucket, BUCKET_COUNT,
};
use crate::primes::{lemma_gcd_of_primes, prime};
use crate::recovery::{base_boost, max_recovery_counts, RecoveryProfile};
use crate::solver::{
    catalyst_of, core_operation, interference, protocol_result, snap_protocol,
    tad_assisted_result, BipartiteTensor, Catalyst, ErrorState, SnapProtocol,
};
use crate::zone::JitterZone;
use vstd::prelude::*;

verus! {

/// The zone predicates match the thresholds that define the zones: the snap zone is the
/// jitter below pi/6 (negative, stable or snap-zone), the TAD-widened zone adds the hold
/// zone below pi/4, the incoherent jitter is that at or above pi/3 (finite or infinite),
/// and every defined jitter is either below pi/6 or at or above it.
pub proof fn lemma_zone_thresholds(z: JitterZone)
    ensures
        z.below_snap() <==> (z is Negative || z is Stable || z is SnapZone),
        z.below_hold() <==> (z.below_snap() || z is HoldZone),
        z.incoherent() <==> (z is Incoherent || z is Infinite),
        z.at_or_above_snap() <==> (!z.below_snap() && !(z is Undefined)),
        z.incoherent() ==> z.at_or_above_snap() && !z.below_hold(),
{
}

/// Round one of the maximum recovery test succeeds for exactly the samples whose jitter is
/// below pi/6 and fails the rest; round two recovers exactly the failed samples whose
/// cooled jitter is below pi/6, and leaves the others as final failures.
pub proof fn lemma_max_recovery_counts_by_threshold(obs: Seq<CoolingObservation>)
    ensures
        ({
            let (successes, failures, recovered, final_failures) = max_recovery_counts(obs);
            &&& successes == obs.filter(
                |o: CoolingObservation|
                    o.zone is Negative || o.zone is Stable || o.zone is SnapZone,
            ).len()
            &&& failures == obs.filter(
                |o: CoolingObservation|
                    !(o.zone is Negative || o.zone is Stable || o.zone is SnapZone),
            ).len()
            &&& recovered == obs.filter(
                |o: CoolingObservation|
                    !(o.zone is Negative || o.zone is Stable || o.zone is SnapZone) && (
                    o.cooled is Negative || o.cooled is Stable || o.cooled is SnapZone),
            ).len()
            &&& final_failures == obs.filter(
                |o: CoolingObservation|
                    !(o.zone is Negative || o.zone is Stable || o.zone is SnapZone) && !(
                    o.cooled is Negative || o.cooled is Stable || o.cooled is SnapZone),
            ).len()
        }),
    decreases obs.len(),
{
    reveal(Seq::filter);
    if obs.len() > 0 {
        lemma_max_recovery_counts_by_threshold(obs.drop_last());
    }
}

/// What the TAD-bridge does when it looks for work from node `from` on: it asks to cool
/// the first node with heartbeats (a sixth of its anchor) after skipping, untouched, nodes
/// without heartbeats whose jitter is below pi/3; it shatters a node without heartbeats
/// only when its jitter is at or above pi/3 (anchor zeroed, jitter infinite, nothing else
/// touched); and it finishes, with the snaps counted so far, when every remaining node is
/// one it skips.
pub proof fn lemma_bridge_step_meaning(
    lattice: Seq<BipartiteTensor>,
    from: int,
    end: int,
    snaps: usize,
)
    requires
        0 <= from <= end <= lattice.len(),
        end < usize::MAX,
    ensures
        match next_step(lattice, from, end, snaps) {
            BridgeStep::Cool(i) => {
                &&& from <= i < end
                &&& lattice[i as int].anchor >= 6
                &&& forall|k: int|
                    from <= k < i ==> (#[trigger] lattice[k]).anchor < 6 && !(lattice[k].jitter is Incoherent
                        || lattice[k].jitter is Infinite)
            },
            BridgeStep::Shattered(i) => {
                &&& from <= i < end
                &&& lattice[i as int].anchor < 6
                &&& (lattice[i as int].jitter is Incoherent || lattice[i as int].jitter is Infinite)
                &&& forall|k: int|
                    from <= k < i ==> (#[trigger] lattice[k]).anchor < 6 && !(lattice[k].jitter is Incoherent
                        || lattice[k].jitter is Infinite)
            },
            BridgeStep::Finished(n) => {
                &&& n == snaps
                &&& forall|k: int|
                    from <= k < end ==> (#[trigger] lattice[k]).anchor < 6 && !(lattice[k].jitter is Incoherent
                        || lattice[k].jitter is Infinite)
            },
            BridgeStep::Snapped(_) => false,
        },
        after_step(lattice, next_step(lattice, from, end, snaps)) == (match next_step(
            lattice,
            from,
            end,
            snaps,
        ) {
            BridgeStep::Shattered(i) => lattice.update(
                i as int,
                BipartiteTensor { anchor: 0, jitter: JitterZone::Infinite },
            ),
            _ => lattice,
        }),
    decreases end - from,
{
    if from < end {
        let t = lattice[from];
        if !(t.anchor / 6 > 0 || t.jitter.incoherent()) {
            lemma_bridge_step_meaning(lattice, from + 1, end, snaps);
        }
    }
}

/// Inside a TAD the assisted snap returns the anchor exactly when the jitter is below
/// pi/4, outside one exactly when it is below pi/6; every other node, incoherent ones
/// included, is held as a high-latency isotope.
pub proof fn lemma_tad_assisted_snap_meaning(tensor: BipartiteTensor, in_tad: bool)
    ensures
        ({
            let below = tensor.jitter is Negative || tensor.jitter is Stable
                || tensor.jitter is SnapZone || (in_tad && tensor.jitter is HoldZone);
            &&& below ==> tad_assisted_result(tensor, in_tad) == Ok::<u32, ErrorState>(
                tensor.anchor,
            )
            &&& !below ==> tad_assisted_result(tensor, in_tad) == Err::<u32, ErrorState>(
                ErrorState::HighLatencyIsotope,
            )
        }),
{
}

/// Only catalyst type 10 selects neon and only type 18 selects argon; every other type
/// leaves the standard field viscosity.
pub proof fn lemma_catalyst_meaning(catalyst_type: u32)
    ensures
        (catalyst_of(catalyst_type) == Catalyst::Neon) <==> catalyst_type == 10,
        (catalyst_of(catalyst_type) == Catalyst::Argon) <==> catalyst_type == 18,
        (catalyst_of(catalyst_type) == Catalyst::Standard) <==> (catalyst_type != 10
            && catalyst_type != 18),
{
}

/// Composites allow for flow: unless both anchors are prime there is no interference.
/// Two primes interfere by the prime itself when equal and by one unit when distinct, so
/// interference never exceeds either anchor.
pub proof fn lemma_interference_meaning(p1: u32, p2: u32)
    ensures
        !(prime(p1 as nat) && prime(p2 as nat)) ==> interference(p1, p2) == 0,
        prime(p1 as nat) && prime(p2 as nat) ==> interference(p1, p2) == (if p1 == p2 {
            p1 as nat
        } else {
            1
        }),
        interference(p1, p2) > 0 ==> interference(p1, p2) <= p1 && interference(p1, p2) <= p2,
{
    if prime(p1 as nat) && prime(p2 as nat) {
        lemma_gcd_of_primes(p1 as nat, p2 as nat);
    }
}

/// The snap-failure protocol: a node below pi/6 snaps to its anchor; any other node is
/// sheared off to its anchor over the thermal threshold; under it, a node at or above
/// pi/3 is sublimated as incoherent noise and every other node is held as a high-latency
/// isotope. The bare core operation answers the same.
pub proof fn lemma_snap_protocol_meaning(tensor: BipartiteTensor, thermal_overloaded: bool)
    ensures
        ({
            let z = tensor.jitter;
            let snap = z is Negative || z is Stable || z is SnapZone;
            let void = z is Incoherent || z is Infinite;
            let p = snap_protocol(z, thermal_overloaded);
            &&& snap ==> p == SnapProtocol::Snap
            &&& !snap && thermal_overloaded ==> p == SnapProtocol::ShearOff
            &&& !snap && !thermal_overloaded && void ==> p == SnapProtocol::Sublimation
            &&& !snap && !thermal_overloaded && !void ==> p == SnapProtocol::GlassTransition
            &&& (snap || thermal_overloaded) ==> protocol_result(p, tensor.anchor) == Ok::<
                u32,
                ErrorState,
            >(tensor.anchor)
            &&& (!snap && !thermal_overloaded && void) ==> protocol_result(p, tensor.anchor)
                == Err::<u32, ErrorState>(ErrorState::IncoherentNoise)
            &&& (!snap && !thermal_overloaded && !void) ==> protocol_result(p, tensor.anchor)
                == Err::<u32, ErrorState>(ErrorState::HighLatencyIsotope)
            &&& core_operation(tensor, thermal_overloaded) == protocol_result(p, tensor.anchor)
        }),
{
}

/// The buckets are the bands [0, pi/12), [pi/12, pi/6), [pi/6, pi/4), [pi/4, pi/3) and
/// [pi/3, inf) in that order, labelled stable, snap-zone, hold-zone, high-jitter and
/// incoherent; negative, infinite and undefined jitter is in none.
pub proof fn lemma_bucket_meaning(z: JitterZone)
    ensures
        (bucket_of(z) == Some(0usize)) <==> z is Stable,
        (bucket_of(z) == Some(1usize)) <==> z is SnapZone,
        (bucket_of(z) == Some(2usize)) <==> z is HoldZone,
        (bucket_of(z) == Some(3usize)) <==> z is HighJitter,
        (bucket_of(z) == Some(4usize)) <==> z is Incoherent,
        bucket_of(z) is None <==> (z is Negative || z is Infinite || z is Undefined),
        label_of(0) == "stable"@,
        label_of(1) == "snap-zone"@,
        label_of(2) == "hold-zone"@,
        label_of(3) == "high-jitter"@,
        label_of(4) == "incoherent"@,
{
}

/// The LCC core path matches exactly the samples below pi/6 and fails the others, and
/// each bucket counts the samples of its band, its successes being those below pi/6.
pub proof fn lemma_core_tally_meaning(zones: Seq<JitterZone>)
    requires
        zones.len() <= usize::MAX,
    ensures
        ({
            let (exact, failures, buckets) = core_tally(zones);
            &&& exact == zones.filter(
                |z: JitterZone| z is Negative || z is Stable || z is SnapZone,
            ).len()
            &&& failures == zones.filter(
                |z: JitterZone| !(z is Negative || z is Stable || z is SnapZone),
            ).len()
            &&& buckets.len() == BUCKET_COUNT
            &&& buckets[0] == DeltaBucket {
                samples: zones.filter(|z: JitterZone| z is Stable).len() as usize,
                successes: zones.filter(|z: JitterZone| z is Stable).len() as usize,
                failures: 0,
            }
            &&& buckets[1] == DeltaBucket {
                samples: zones.filter(|z: JitterZone| z is SnapZone).len() as usize,
                successes: zones.filter(|z: JitterZone| z is SnapZone).len() as usize,
                failures: 0,
            }
            &&& buckets[2] == DeltaBucket {
                samples: zones.filter(|z: JitterZone| z is HoldZone).len() as usize,
                successes: 0,
                failures: zones.filter(|z: JitterZone| z is HoldZone).len() as usize,
            }
            &&& buckets[3] == DeltaBucket {
                samples: zones.filter(|z: JitterZone| z is HighJitter).len() as usize,
                successes: 0,
                failures: zones.filter(|z: JitterZone| z is HighJitter).len() as usize,
            }
            &&& buckets[4] == DeltaBucket {
                samples: zones.filter(|z: JitterZone| z is Incoherent).len() as usize,
                successes: 0,
                failures: zones.filter(|z: JitterZone| z is Incoherent).len() as usize,
            }
        }),
    decreases zones.len(),
{
    reveal(Seq::filter);
    if zones.len() > 0 {
        lemma_core_tally_meaning(zones.drop_last());
        zones.drop_last().lemma_filter_len(|z: JitterZone| z is Stable);
        zones.drop_last().lemma_filter_len(|z: JitterZone| z is SnapZone);
        zones.drop_last().lemma_filter_len(|z: JitterZone| z is HoldZone);
        zones.drop_last().lemma_filter_len(|z: JitterZone| z is HighJitter);
        zones.drop_last().lemma_filter_len(|z: JitterZone| z is Incoherent);
    }
}

/// Resonance recovery recovers, in the hold-zone and in the high-jitter bucket, one
/// failure for each sample of that band whose cooled jitter does not reach pi/6 (or is
/// undefined), as long as failures remain; the stable and snap-zone buckets are never
/// touched.
pub proof fn lemma_recovery_meaning(buckets: Seq<DeltaBucket>, obs: Seq<CoolingObservation>)
    requires
        buckets.len() == BUCKET_COUNT,
        recovery_fits(buckets, obs),
    ensures
        ({
            let (after, hold, high) = recovery_run(buckets, obs);
            let hold_cooled = obs.filter(
                |o: CoolingObservation|
                    o.zone is HoldZone && !(o.cooled is HoldZone || o.cooled is HighJitter
                        || o.cooled is Incoherent || o.cooled is Infinite),
            ).len();
            let high_cooled = obs.filter(
                |o: CoolingObservation|
                    o.zone is HighJitter && !(o.cooled is HoldZone || o.cooled is HighJitter
                        || o.cooled is Incoherent || o.cooled is Infinite),
            ).len();
            &&& hold == (if buckets[2].failures <= hold_cooled {
                buckets[2].failures as nat
            } else {
                hold_cooled
            })
            &&& high == (if buckets[3].failures <= high_cooled {
                buckets[3].failures as nat
            } else {
                high_cooled
            })
            &&& after[2].failures == buckets[2].failures - hold
            &&& after[2].successes == buckets[2].successes + hold
            &&& after[3].failures == buckets[3].failures - high
            &&& after[3].successes == buckets[3].successes + high
            &&& after[0] == buckets[0]
            &&& after[1] == buckets[1]
            &&& ({
                let void_cooled = obs.filter(
                    |o: CoolingObservation|
                        o.zone is Incoherent && !(o.cooled is HoldZone || o.cooled is HighJitter
                            || o.cooled is Incoherent || o.cooled is Infinite),
                ).len();
                let m = if buckets[4].failures <= void_cooled {
                    buckets[4].failures as nat
                } else {
                    void_cooled
                };
                &&& after[4].failures == buckets[4].failures - m
                &&& after[4].successes == buckets[4].successes + m
                &&& after[4].samples == buckets[4].samples
            })
        }),
{
    lemma_recovery_closed_form(buckets, obs);
    assert(buckets[4].successes + recoveries(buckets[4], obs, 4) <= usize::MAX);
    lemma_recoverable_by_band(obs);
    crate::buckets::lemma_snap_zone_buckets_unrecoverable(obs);
    assert(buckets[2].successes + recoveries(buckets[2], obs, 2) <= usize::MAX);
    assert(buckets[3].successes + recoveries(buckets[3], obs, 3) <= usize::MAX);
}

/// The samples recoverable in the hold-zone and high-jitter buckets are those of the band
/// whose cooled jitter does not reach pi/6.
proof fn lemma_recoverable_by_band(obs: Seq<CoolingObservation>)
    ensures
        recoverable(obs, 2) == obs.filter(
            |o: CoolingObservation|
                o.zone is HoldZone && !(o.cooled is HoldZone || o.cooled is HighJitter
                    || o.cooled is Incoherent || o.cooled is Infinite),
        ).len(),
        recoverable(obs, 3) == obs.filter(
            |o: CoolingObservation|
                o.zone is HighJitter && !(o.cooled is HoldZone || o.cooled is HighJitter
                    || o.cooled is Incoherent || o.cooled is Infinite),
        ).len(),
        recoverable(obs, 4) == obs.filter(
            |o: CoolingObservation|
                o.zone is Incoherent && !(o.cooled is HoldZone || o.cooled is HighJitter
                    || o.cooled is Incoherent || o.cooled is Infinite),
        ).len(),
    decreases obs.len(),
{
    reveal(Seq::filter);
    if obs.len() > 0 {
        lemma_recoverable_by_band(obs.drop_last());
    }
}

/// Primality is the absence of a factorization: a number is prime exactly when it is
/// greater than one and is no product of two numbers greater than one.
pub proof fn lemma_prime_meaning(n: nat)
    ensures
        prime(n) <==> (n > 1 && !exists|a: nat, b: nat| 1 < a && 1 < b && #[trigger] (a * b) == n),
{
    if prime(n) {
        if exists|a: nat, b: nat| 1 < a && 1 < b && #[trigger] (a * b) == n {
            let (a, b) = choose|a: nat, b: nat| 1 < a && 1 < b && #[trigger] (a * b) == n;
            assert(a < n) by (nonlinear_arith)
                requires
                    1 < a,
                    1 < b,
                    a * b == n,
            ;
            vstd::arithmetic::div_mod::lemma_mod_multiples_basic(b as int, a as int);
            assert(b * a == a * b) by (nonlinear_arith);
            assert(n % a == 0);
        }
    } else if n > 1 {
        assert(!(forall|d: nat| 1 < d < n ==> #[trigger] (n % d) != 0));
        let d = choose|d: nat| 1 < d < n && #[trigger] (n % d) == 0;
        vstd::arithmetic::div_mod::lemma_fundamental_div_mod(n as int, d as int);
        let q = n / d;
        assert(1 < q) by (nonlinear_arith)
            requires
                n == d * q + 0,
                d < n,
                d > 1,
        ;
        assert(d * q == n);
    }
}

/// The profiles are named Conservative, Balanced and Aggressive.
pub proof fn lemma_profile_names()
    ensures
        crate::recovery::profile_label(RecoveryProfile::Conservative) == "Conservative"@,
        crate::recovery::profile_label(RecoveryProfile::Balanced) == "Balanced"@,
        crate::recovery::profile_label(RecoveryProfile::Aggressive) == "Aggressive"@,
{
}

/// The adaptive boost bands: the Conservative band for jitter up to pi/4 is eighteen
/// hundredths; jitter above pi/4 gets twelve hundredths more; and each profile, from
/// Conservative through Balanced to Aggressive, adds eight hundredths.
pub proof fn lemma_base_boost_meaning(profile: RecoveryProfile, above_quarter_pi: bool)
    ensures
        base_boost(RecoveryProfile::Conservative, false) == 18,
        base_boost(profile, true) == base_boost(profile, false) + 12,
        base_boost(RecoveryProfile::Balanced, above_quarter_pi) == base_boost(
            RecoveryProfile::Conservative,
            above_quarter_pi,
        ) + 8,
        base_boost(RecoveryProfile::Aggressive, above_quarter_pi) == base_boost(
            RecoveryProfile::Balanced,
            above_quarter_pi,
        ) + 8,
{
}

} // verus!
