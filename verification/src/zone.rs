//! Jitter zones: where a node's residual phase variance (its `delta`) lies relative
//! to the thresholds pi/12, pi/6, pi/4 and pi/3 that the protocols compare it with.
use vstd::prelude::*;

verus! {

/// The zone of a jitter residue `delta`.
///
/// - `Negative`: `delta < 0`
/// - `Stable`: `0 <= delta < pi/12`
/// - `SnapZone`: `pi/12 <= delta < pi/6`
/// - `HoldZone`: `pi/6 <= delta < pi/4`
/// - `HighJitter`: `pi/4 <= delta < pi/3`
/// - `Incoherent`: `pi/3 <= delta` and `delta` finite
/// - `Infinite`: `delta` is positive infinity (a shattered jitter segment)
/// - `Undefined`: `delta` is not a number, so that every comparison fails
#[derive(Debug, Clone, Copy, PartialEq, Eq, Structural)]
pub enum JitterZone {
    Negative,
    Stable,
    SnapZone,
    HoldZone,
    HighJitter,
    Incoherent,
    Infinite,
    Undefined,
}

impl JitterZone {
    /// `delta < pi/6`: inside the safety displacement zone, where a node snaps.
    pub open spec fn below_snap(self) -> bool {
        self is Negative || self is Stable || self is SnapZone
    }

    /// `delta < pi/4`: inside the snap zone widened by a TAD (hold zone included).
    pub open spec fn below_hold(self) -> bool {
        self.below_snap() || self is HoldZone
    }

    /// `delta >= pi/6`.
    pub open spec fn at_or_above_snap(self) -> bool {
        self is HoldZone || self is HighJitter || self is Incoherent || self is Infinite
    }

    /// `delta >= pi/3`: incoherent noise, a destructive void.
    pub open spec fn incoherent(self) -> bool {
        self is Incoherent || self is Infinite
    }

    /// Executable form of `below_snap`.
    pub fn is_below_snap(&self) -> (r: bool)
        ensures
            r == self.below_snap(),
    {
        match self {
            JitterZone::Negative | JitterZone::Stable | JitterZone::SnapZone => true,
            _ => false,
        }
    }

    /// Executable form of `below_hold`.
    pub fn is_below_hold(&self) -> (r: bool)
        ensures
            r == self.below_hold(),
    {
        match self {
            JitterZone::HoldZone => true,
            _ => self.is_below_snap(),
        }
    }

    /// Executable form of `at_or_above_snap`.
    pub fn is_at_or_above_snap(&self) -> (r: bool)
        ensures
            r == self.at_or_above_snap(),
    {
        match self {
            JitterZone::HoldZone | JitterZone::HighJitter | JitterZone::Incoherent
            | JitterZone::Infinite => true,
            _ => false,
        }
    }

    /// Executable form of `incoherent`.
    pub fn is_incoherent(&self) -> (r: bool)
        ensures
            r == self.incoherent(),
    {
        match self {
            JitterZone::Incoherent | JitterZone::Infinite => true,
            _ => false,
        }
    }
}

} // verus!
