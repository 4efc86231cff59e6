//! The TAD-bridge with its white-hole interlock, as a state machine.
//!
//! The bridge walks the nodes of a TAD in order. Each node gets a heartbeat budget of a
//! sixth of its prime anchor (heavier primes afford more cycles). On each heartbeat the
//! caller cools the node's jitter and reports the zone it reached; a node that reaches the
//! safety zone snaps (its jitter is locked at zero) and counts. A node that leaves its
//! budget with incoherent jitter is shattered (anchor zeroed, jitter infinite) and the
//! bridge fails with `IncoherentNoise`. A bridge over an overloaded lattice is refused.
use crate::solver::{BipartiteTensor, ErrorState, GeodesicSolver, LATTICE_SIZE, TAD};
use crate::zone::JitterZone;
use vstd::prelude::*;

verus! {

/// What the bridge asks of its caller next.
#[derive(Debug, Clone, Copy, PartialEq, Eq, Structural)]
pub enum BridgeStep {
    /// Cool node `i` by one heartbeat and report its new zone with `observe_cooling`.
    Cool(usize),
    /// Node `i` reached resistance lock: its jitter is now zero. Continue with `resume`.
    Snapped(usize),
    /// Node `i` was a destructive void: its anchor is zero and its jitter infinite. The
    /// bridge has failed with `ErrorState::IncoherentNoise`.
    Shattered(usize),
    /// Every node of the TAD was processed; the payload is the number of snaps.
    Finished(usize),
}

/// A TAD-bridge in progress over the nodes `start..end`. Its fields are private: only
/// the bridge's own steps move it, so its counts always match the lattice it walks.
#[derive(Debug, Clone, Copy)]
pub struct SecureBridge {
    start: usize,
    end: usize,
    /// The node being processed (or `end` once every node has been).
    current: usize,
    /// Heartbeats spent so far on `current`.
    beats: u32,
    /// Nodes that snapped so far.
    snap_count: usize,
}

/// The heartbeat budget of a node: a sixth of its anchor.
pub open spec fn heartbeat_budget(t: BipartiteTensor) -> nat {
    (t.anchor / 6) as nat
}

/// The first node at or after `j`, before `end`, that has heartbeats to spend or is
/// incoherent; `end` when there is none.
pub open spec fn scan(lattice: Seq<BipartiteTensor>, j: int, end: int) -> int
    decreases end - j,
{
    if j >= end {
        end
    } else if heartbeat_budget(lattice[j]) > 0 || lattice[j].jitter.incoherent() {
        j
    } else {
        scan(lattice, j + 1, end)
    }
}

/// The step the bridge takes when it looks for work from node `from` on.
pub open spec fn next_step(lattice: Seq<BipartiteTensor>, from: int, end: int, snaps: usize) -> BridgeStep {
    let pos = scan(lattice, from, end);
    if pos >= end {
        BridgeStep::Finished(snaps)
    } else if heartbeat_budget(lattice[pos]) > 0 {
        BridgeStep::Cool(pos as usize)
    } else {
        BridgeStep::Shattered(pos as usize)
    }
}

/// A shattered node: absolute sublimation of both segments.
pub open spec fn shattered() -> BipartiteTensor {
    BipartiteTensor { anchor: 0, jitter: JitterZone::Infinite }
}

/// The lattice after a step: a shattered node is shattered, nothing else changes.
pub open spec fn after_step(lattice: Seq<BipartiteTensor>, step: BridgeStep) -> Seq<BipartiteTensor> {
    match step {
        BridgeStep::Shattered(i) => lattice.update(i as int, shattered()),
        _ => lattice,
    }
}

/// No node in `start..upto` is incoherent.
pub open spec fn coherent_prefix(lattice: Seq<BipartiteTensor>, start: int, upto: int) -> bool {
    forall|k: int| start <= k < upto ==> !(#[trigger] lattice[k]).jitter.incoherent()
}

impl SecureBridge {
    /// The first node of the TAD.
    pub closed spec fn range_start(self) -> usize {
        self.start
    }

    /// The end of the TAD (one past its last node).
    pub closed spec fn range_end(self) -> usize {
        self.end
    }

    /// The node being processed, or `range_end` once every node has been.
    pub closed spec fn node(self) -> usize {
        self.current
    }

    /// Heartbeats spent so far on `node`.
    pub closed spec fn beats_spent(self) -> u32 {
        self.beats
    }

    /// Nodes that snapped so far.
    pub closed spec fn snaps(self) -> usize {
        self.snap_count
    }

    /// The bookkeeping every state shares with the lattice.
    pub open spec fn tracks(self, lattice: Seq<BipartiteTensor>) -> bool {
        &&& lattice.len() == LATTICE_SIZE
        &&& self.range_start() <= self.node() <= self.range_end() <= LATTICE_SIZE
        &&& self.snaps() <= self.node() - self.range_start()
        &&& coherent_prefix(lattice, self.range_start() as int, self.node() as int)
    }

    /// The bridge has asked for its `node` to be cooled.
    pub open spec fn awaiting_cooling(self, solver: GeodesicSolver) -> bool {
        &&& self.tracks(solver.lattice@)
        &&& self.node() < self.range_end()
        &&& self.beats_spent() < heartbeat_budget(solver.lattice@[self.node() as int])
    }

    /// The bridge has reported a snap of the node before its `node` and waits to resume.
    pub open spec fn awaiting_resume(self, solver: GeodesicSolver) -> bool {
        &&& self.tracks(solver.lattice@)
        &&& self.range_start() < self.node()
        &&& self.beats_spent() == 0
    }

    /// The state the bridge is left in after returning `step`.
    pub open spec fn settled_after(self, solver: GeodesicSolver, step: BridgeStep) -> bool {
        match step {
            BridgeStep::Cool(i) => self.awaiting_cooling(solver) && self.node() == i,
            BridgeStep::Snapped(i) => self.awaiting_resume(solver) && self.node() == i + 1,
            BridgeStep::Shattered(i) => self.range_start() <= i < self.range_end() && self.node() == i,
            BridgeStep::Finished(n) => {
                &&& self.tracks(solver.lattice@)
                &&& self.node() == self.range_end()
                &&& n == self.snaps()
            },
        }
    }

    /// Looks for work from node `from` on: skips nodes without heartbeats that are
    /// coherent, asks for the first node with heartbeats to be cooled, shatters the first
    /// node without heartbeats that is incoherent, or finishes.
    fn advance_from(&mut self, solver: &mut GeodesicSolver, from: usize) -> (r: BridgeStep)
        requires
            old(solver).lattice@.len() == LATTICE_SIZE,
            old(self).start <= from <= old(self).end <= LATTICE_SIZE,
            old(self).snap_count <= from - old(self).start,
            coherent_prefix(old(solver).lattice@, old(self).start as int, from as int),
        ensures
            r == next_step(
                old(solver).lattice@,
                from as int,
                old(self).end as int,
                old(self).snap_count,
            ),
            final(solver).lattice@ == after_step(old(solver).lattice@, r),
            final(self).start == old(self).start,
            final(self).end == old(self).end,
            final(self).snap_count == old(self).snap_count,
            final(self).settled_after(*final(solver), r),
            r is Cool ==> final(self).beats == 0,
    {
        let ghost lat = solver.lattice@;
        let mut j = from;
        while j < self.end
            invariant
                solver.lattice@ == lat,
                lat == old(solver).lattice@,
                lat.len() == LATTICE_SIZE,
                self.start <= from <= j <= self.end <= LATTICE_SIZE,
                self.snap_count <= from - self.start,
                self.start == old(self).start,
                self.end == old(self).end,
                self.snap_count == old(self).snap_count,
                coherent_prefix(lat, self.start as int, j as int),
                scan(lat, from as int, self.end as int) == scan(lat, j as int, self.end as int),
            decreases self.end - j,
        {
            let t = solver.lattice[j];
            if t.anchor / 6 > 0 {
                self.current = j;
                self.beats = 0;
                return BridgeStep::Cool(j);
            }
            if t.jitter.is_incoherent() {
                solver.lattice[j] = BipartiteTensor { anchor: 0, jitter: JitterZone::Infinite };
                self.current = j;
                return BridgeStep::Shattered(j);
            }
            j = j + 1;
        }
        self.current = self.end;
        BridgeStep::Finished(self.snap_count)
    }

    /// Takes the zone that the bridge's `node` reached after one more heartbeat of cooling.
    ///
    /// A zone in the safety zone snaps the node: its jitter is locked at zero and the snap
    /// counts. Otherwise, while heartbeats remain, the node is cooled again; when they are
    /// spent, an incoherent node is shattered and the bridge fails, and a coherent one is
    /// left as it is while the bridge moves on to the next node.
    pub fn observe_cooling(&mut self, solver: &mut GeodesicSolver, zone: JitterZone) -> (r:
        BridgeStep)
        requires
            old(self).awaiting_cooling(*old(solver)),
        ensures
            ({
                let i = old(self).node();
                let node = old(solver).lattice@[i as int];
                let cooled = old(solver).lattice@.update(
                    i as int,
                    BipartiteTensor { anchor: node.anchor, jitter: zone },
                );
                if zone.below_snap() {
                    &&& r == BridgeStep::Snapped(i)
                    &&& final(solver).lattice@ == old(solver).lattice@.update(
                        i as int,
                        BipartiteTensor { anchor: node.anchor, jitter: JitterZone::Stable },
                    )
                    &&& final(self).snaps() == old(self).snaps() + 1
                } else if old(self).beats_spent() + 1 < heartbeat_budget(node) {
                    &&& r == BridgeStep::Cool(i)
                    &&& final(solver).lattice@ == cooled
                    &&& final(self).beats_spent() == old(self).beats_spent() + 1
                    &&& final(self).snaps() == old(self).snaps()
                } else if zone.incoherent() {
                    &&& r == BridgeStep::Shattered(i)
                    &&& final(solver).lattice@ == old(solver).lattice@.update(i as int, shattered())
                    &&& final(self).snaps() == old(self).snaps()
                } else {
                    &&& r == next_step(cooled, i + 1, old(self).range_end() as int, old(self).snaps())
                    &&& final(solver).lattice@ == after_step(cooled, r)
                    &&& final(self).snaps() == old(self).snaps()
                    &&& r is Cool ==> final(self).beats_spent() == 0
                }
            }),
            final(self).range_start() == old(self).range_start(),
            final(self).range_end() == old(self).range_end(),
            final(self).settled_after(*final(solver), r),
    {
        let i = self.current;
        let anchor = solver.lattice[i].anchor;
        let budget = anchor / 6;
        solver.lattice[i] = BipartiteTensor { anchor, jitter: zone };
        if zone.is_below_snap() {
            solver.lattice[i] = BipartiteTensor { anchor, jitter: JitterZone::Stable };
            self.snap_count = self.snap_count + 1;
            self.current = i + 1;
            self.beats = 0;
            return BridgeStep::Snapped(i);
        }
        if self.beats + 1 < budget {
            self.beats = self.beats + 1;
            return BridgeStep::Cool(i);
        }
        if zone.is_incoherent() {
            solver.lattice[i] = BipartiteTensor { anchor: 0, jitter: JitterZone::Infinite };
            return BridgeStep::Shattered(i);
        }
        self.advance_from(solver, i + 1)
    }

    /// The number of nodes that snapped so far.
    pub fn snap_count(&self) -> (r: usize)
        ensures
            r == self.snaps(),
    {
        self.snap_count
    }

    /// Heartbeats spent so far on the node being processed.
    pub fn beats(&self) -> (r: u32)
        ensures
            r == self.beats_spent(),
    {
        self.beats
    }

    /// The node being processed, or the end of the TAD once every node has been.
    pub fn current(&self) -> (r: usize)
        ensures
            r == self.node(),
    {
        self.current
    }

    /// Moves on after a snap: looks for work from the bridge's `node` on.
    pub fn resume(&mut self, solver: &mut GeodesicSolver) -> (r: BridgeStep)
        requires
            old(self).awaiting_resume(*old(solver)),
        ensures
            r == next_step(
                old(solver).lattice@,
                old(self).node() as int,
                old(self).range_end() as int,
                old(self).snaps(),
            ),
            final(solver).lattice@ == after_step(old(solver).lattice@, r),
            final(self).range_start() == old(self).range_start(),
            final(self).range_end() == old(self).range_end(),
            final(self).snaps() == old(self).snaps(),
            final(self).settled_after(*final(solver), r),
            r is Cool ==> final(self).beats_spent() == 0,
    {
        let from = self.current;
        self.advance_from(solver, from)
    }
}

impl GeodesicSolver {
    /// Starts the TAD-bridge over `tad` with the white-hole interlock.
    ///
    /// When the thermal load is over its threshold the lattice is in a high-entropy state
    /// and ignition is refused with `HighLatencyIsotope`, the lattice untouched. Otherwise
    /// the bridge looks for work from the first node of the TAD on, and returns itself with
    /// its first step.
    pub fn execute_secure_bridge(&mut self, tad: &TAD, thermal_overloaded: bool) -> (r: Result<
        (SecureBridge, BridgeStep),
        ErrorState,
    >)
        requires
            !thermal_overloaded ==> tad.range_start <= tad.range_end <= LATTICE_SIZE,
        ensures
            thermal_overloaded ==> r == Err::<(SecureBridge, BridgeStep), ErrorState>(
                ErrorState::HighLatencyIsotope,
            ) && final(self).lattice@ == old(self).lattice@,
            !thermal_overloaded ==> (r matches Ok((bridge, step)) && {
                &&& bridge.range_start() == tad.range_start
                &&& bridge.range_end() == tad.range_end
                &&& bridge.snaps() == 0
                &&& step is Cool ==> bridge.beats_spent() == 0
                &&& step == next_step(
                    old(self).lattice@,
                    tad.range_start as int,
                    tad.range_end as int,
                    0,
                )
                &&& final(self).lattice@ == after_step(old(self).lattice@, step)
                &&& bridge.settled_after(*final(self), step)
            }),
    {
        if thermal_overloaded {
            return Err(ErrorState::HighLatencyIsotope);
        }
        let mut bridge = SecureBridge {
            start: tad.range_start,
            end: tad.range_end,
            current: tad.range_start,
            beats: 0,
            snap_count: 0,
        };
        let step = bridge.advance_from(self, tad.range_start);
        Ok((bridge, step))
    }
}

} // verus!
