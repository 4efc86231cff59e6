//! The geodesic solver: the snap-failure protocol on a lattice of bipartite tensors.
use crate::primes::{gcd_u32, is_prime, lemma_gcd_of_primes, prime, spec_gcd, trial_square_fits};
use crate::zone::JitterZone;
use vstd::prelude::*;

verus! {

/// Number of nodes in the hard-coded lattice core (the 156-Metric).
pub const LATTICE_SIZE: usize = 156;

/// Error states of the hardware execution protocol.
#[derive(Debug, Clone, Copy, PartialEq, Eq, Structural)]
pub enum ErrorState {
    /// Triggers absolute sublimation (0V).
    IncoherentNoise,
    /// Triggers the glass transition (hold).
    HighLatencyIsotope,
}

/// A node of the lattice: the prime anchor and the zone of its jitter residue.
#[derive(Debug, Clone, Copy, PartialEq, Eq, Structural)]
pub struct BipartiteTensor {
    pub anchor: u32,
    pub jitter: JitterZone,
}

/// A topologically associating domain: the nodes `range_start..range_end` of the lattice.
#[derive(Debug, Clone, Copy, PartialEq, Eq, Structural)]
pub struct TAD {
    pub range_start: usize,
    pub range_end: usize,
}

/// The solver's lattice core.
pub struct GeodesicSolver {
    pub lattice: [BipartiteTensor; 156],
}

/// Which branch of the snap-failure protocol a finalization snap took.
#[derive(Debug, Clone, Copy, PartialEq, Eq, Structural)]
pub enum SnapProtocol {
    /// The jitter lies in the safety displacement zone: the anchor is returned.
    Snap,
    /// The thermal load is over its threshold: forced rounding, with a thermal warning.
    ShearOff,
    /// The jitter is incoherent: the node's jitter segment is purged.
    Sublimation,
    /// Otherwise the node is held.
    GlassTransition,
}

/// What a finalization snap returned, and which protocol branch produced it.
#[derive(Debug, Clone, Copy)]
pub struct SnapOutcome {
    pub result: Result<u32, ErrorState>,
    pub protocol: SnapProtocol,
}

/// The catalyst that a catalyst type selects.
#[derive(Debug, Clone, Copy, PartialEq, Eq, Structural)]
pub enum Catalyst {
    /// Type 10: reduces drag by 90%.
    Neon,
    /// Type 18: a near-zero friction tunnel.
    Argon,
    /// Any other type: standard field viscosity.
    Standard,
}

/// The protocol branch taken for a node in `jitter` when the thermal load is
/// (`thermal_overloaded`) or is not over its threshold.
pub open spec fn snap_protocol(jitter: JitterZone, thermal_overloaded: bool) -> SnapProtocol {
    if jitter.below_snap() {
        SnapProtocol::Snap
    } else if thermal_overloaded {
        SnapProtocol::ShearOff
    } else if jitter.incoherent() {
        SnapProtocol::Sublimation
    } else {
        SnapProtocol::GlassTransition
    }
}

/// What a protocol branch returns for a node anchored at `anchor`.
pub open spec fn protocol_result(protocol: SnapProtocol, anchor: u32) -> Result<u32, ErrorState> {
    match protocol {
        SnapProtocol::Snap | SnapProtocol::ShearOff => Ok(anchor),
        SnapProtocol::Sublimation => Err(ErrorState::IncoherentNoise),
        SnapProtocol::GlassTransition => Err(ErrorState::HighLatencyIsotope),
    }
}

/// The bare LCC core operation on one tensor.
pub open spec fn core_operation(tensor: BipartiteTensor, thermal_overloaded: bool) -> Result<
    u32,
    ErrorState,
> {
    if tensor.jitter.below_snap() || thermal_overloaded {
        Ok(tensor.anchor)
    } else if tensor.jitter.incoherent() {
        Err(ErrorState::IncoherentNoise)
    } else {
        Err(ErrorState::HighLatencyIsotope)
    }
}

/// The result of a TAD-assisted snap: inside a TAD the snap zone is widened to pi/4.
pub open spec fn tad_assisted_result(tensor: BipartiteTensor, in_tad: bool) -> Result<
    u32,
    ErrorState,
> {
    if (if in_tad {
        tensor.jitter.below_hold()
    } else {
        tensor.jitter.below_snap()
    }) {
        Ok(tensor.anchor)
    } else {
        Err(ErrorState::HighLatencyIsotope)
    }
}

/// The interference of two anchors in units of the field viscosity: the greatest common
/// divisor when both are prime, else zero.
pub open spec fn interference(p1: u32, p2: u32) -> nat {
    if prime(p1 as nat) && prime(p2 as nat) {
        spec_gcd(p1 as nat, p2 as nat)
    } else {
        0
    }
}

/// The catalyst selected by a catalyst type.
pub open spec fn catalyst_of(catalyst_type: u32) -> Catalyst {
    if catalyst_type == 10 {
        Catalyst::Neon
    } else if catalyst_type == 18 {
        Catalyst::Argon
    } else {
        Catalyst::Standard
    }
}

/// The bare LCC core operation: the snap decision on one tensor, without side effects.
///
/// The anchor is returned when the jitter is in the safety zone or the thermal load is
/// over its threshold; otherwise the node fails as incoherent noise (jitter at or above
/// pi/3) or as a high-latency isotope.
pub fn lcc_core_operation(tensor: BipartiteTensor, thermal_overloaded: bool) -> (r: Result<
    u32,
    ErrorState,
>)
    ensures
        r == core_operation(tensor, thermal_overloaded),
{
    if tensor.jitter.is_below_snap() || thermal_overloaded {
        Ok(tensor.anchor)
    } else if tensor.jitter.is_incoherent() {
        Err(ErrorState::IncoherentNoise)
    } else {
        Err(ErrorState::HighLatencyIsotope)
    }
}

impl GeodesicSolver {
    /// Interference between two anchors, in units of the field viscosity.
    ///
    /// Prime anchors interfere by their greatest common divisor (the prime itself for
    /// two equal primes, one for two distinct primes); composites allow for flow.
    ///
    /// Trial division of `p1`, and of `p2` when `p1` is prime, must not square past `u32`.
    pub fn calculate_interference(&self, p1: u32, p2: u32) -> (r: u32)
        requires
            trial_square_fits(p1 as nat),
            prime(p1 as nat) ==> trial_square_fits(p2 as nat),
        ensures
            r == interference(p1, p2),
            prime(p1 as nat) && prime(p2 as nat) ==> r == (if p1 == p2 {
                p1
            } else {
                1
            }),
    {
        if is_prime(p1) && is_prime(p2) {
            proof {
                lemma_gcd_of_primes(p1 as nat, p2 as nat);
            }
            return gcd_u32(p1, p2);
        }
        0
    }

    /// The catalyst that `catalyst_type` selects (the node is not consulted).
    pub fn apply_catalyst(&self, _node_id: usize, catalyst_type: u32) -> (r: Catalyst)
        ensures
            r == catalyst_of(catalyst_type),
    {
        match catalyst_type {
            10 => Catalyst::Neon,
            18 => Catalyst::Argon,
            _ => Catalyst::Standard,
        }
    }

    /// Whether a jitter zone is incoherent (`delta >= pi/3`).
    fn jitter_incoherence(&self, jitter: JitterZone) -> (r: bool)
        ensures
            r == jitter.incoherent(),
    {
        jitter.is_incoherent()
    }

    /// Purge with the water-hammer interlock: only the jitter segment of node `id` is
    /// shattered (its jitter becomes infinite); the anchor is preserved.
    fn purge_node_with_interlock(&mut self, id: usize)
        requires
            id < LATTICE_SIZE,
        ensures
            final(self).lattice@ == old(self).lattice@.update(
                id as int,
                BipartiteTensor { anchor: old(self).lattice@[id as int].anchor, jitter: JitterZone::Infinite },
            ),
    {
        let anchor = self.lattice[id].anchor;
        self.lattice[id] = BipartiteTensor { anchor, jitter: JitterZone::Infinite };
    }

    /// The snap-failure protocol on node `id`.
    ///
    /// A node whose jitter is in the safety zone snaps to its anchor. Otherwise, when the
    /// thermal load is over its threshold the node is sheared off to its anchor (the caller
    /// emits a thermal warning); an incoherent node is sublimated (its jitter segment purged,
    /// its anchor kept, and the caller's thermal load absorbs the spike); any other node is
    /// held as a high-latency isotope.
    pub fn execute_finalization_snap(&mut self, id: usize, thermal_overloaded: bool) -> (r:
        SnapOutcome)
        requires
            id < LATTICE_SIZE,
        ensures
            r.protocol == snap_protocol(old(self).lattice@[id as int].jitter, thermal_overloaded),
            r.result == protocol_result(r.protocol, old(self).lattice@[id as int].anchor),
            r.protocol is Sublimation ==> final(self).lattice@ == old(self).lattice@.update(
                id as int,
                BipartiteTensor { anchor: old(self).lattice@[id as int].anchor, jitter: JitterZone::Infinite },
            ),
            !(r.protocol is Sublimation) ==> final(self).lattice@ == old(self).lattice@,
    {
        let tensor = self.lattice[id];
        if tensor.jitter.is_below_snap() {
            return SnapOutcome { result: Ok(tensor.anchor), protocol: SnapProtocol::Snap };
        }
        if thermal_overloaded {
            SnapOutcome { result: Ok(tensor.anchor), protocol: SnapProtocol::ShearOff }
        } else if self.jitter_incoherence(tensor.jitter) {
            self.purge_node_with_interlock(id);
            SnapOutcome {
                result: Err(ErrorState::IncoherentNoise),
                protocol: SnapProtocol::Sublimation,
            }
        } else {
            SnapOutcome {
                result: Err(ErrorState::HighLatencyIsotope),
                protocol: SnapProtocol::GlassTransition,
            }
        }
    }

    /// TAD-integrated quantized state finalization of node `id`: inside a TAD the snap
    /// threshold is widened from pi/6 to pi/4. The lattice is left unchanged.
    pub fn execute_tad_assisted_snap(&mut self, id: usize, in_tad: bool) -> (r: Result<
        u32,
        ErrorState,
    >)
        requires
            id < LATTICE_SIZE,
        ensures
            r == tad_assisted_result(old(self).lattice@[id as int], in_tad),
            final(self).lattice@ == old(self).lattice@,
    {
        let tensor = self.lattice[id];
        let within = if in_tad {
            tensor.jitter.is_below_hold()
        } else {
            tensor.jitter.is_below_snap()
        };
        if within {
            Ok(tensor.anchor)
        } else {
            Err(ErrorState::HighLatencyIsotope)
        }
    }

    /// Coordinate access to node `coord`.
    pub fn transition_node(&self, coord: usize) -> (r: &BipartiteTensor)
        requires
            coord < LATTICE_SIZE,
        ensures
            *r == self.lattice@[coord as int],
    {
        &self.lattice[coord]
    }
}

} // verus!
