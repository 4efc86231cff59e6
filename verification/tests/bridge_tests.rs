use crystal_engine::bridge::BridgeStep;
use crystal_engine::solver::{BipartiteTensor, ErrorState, GeodesicSolver, TAD};
use crystal_engine::zone::JitterZone;

fn solver_with(anchor: u32, jitter: JitterZone) -> GeodesicSolver {
    GeodesicSolver { lattice: [BipartiteTensor { anchor, jitter }; 156] }
}

#[test]
fn bridge_refused_when_overloaded() {
    let mut solver = solver_with(13, JitterZone::Incoherent);
    let before = solver.lattice;
    let r = solver.execute_secure_bridge(&TAD { range_start: 0, range_end: 10 }, true);
    assert_eq!(r.err(), Some(ErrorState::HighLatencyIsotope));
    assert_eq!(solver.lattice, before);
}

#[test]
fn bridge_over_empty_range_finishes_at_once() {
    let mut solver = solver_with(13, JitterZone::Incoherent);
    let (_, step) = solver
        .execute_secure_bridge(&TAD { range_start: 5, range_end: 5 }, false)
        .unwrap();
    assert_eq!(step, BridgeStep::Finished(0));
}

#[test]
fn bridge_cools_snaps_skips_and_shatters() {
    let mut solver = solver_with(6, JitterZone::Stable);
    solver.lattice[0] = BipartiteTensor { anchor: 13, jitter: JitterZone::HighJitter };
    solver.lattice[1] = BipartiteTensor { anchor: 5, jitter: JitterZone::HoldZone };
    solver.lattice[2] = BipartiteTensor { anchor: 7, jitter: JitterZone::Incoherent };
    solver.lattice[3] = BipartiteTensor { anchor: 7, jitter: JitterZone::Incoherent };
    let (mut bridge, step) = solver
        .execute_secure_bridge(&TAD { range_start: 0, range_end: 4 }, false)
        .unwrap();
    // node 0 has a budget of two heartbeats
    assert_eq!(step, BridgeStep::Cool(0));
    let step = bridge.observe_cooling(&mut solver, JitterZone::HoldZone);
    assert_eq!(step, BridgeStep::Cool(0));
    assert_eq!(solver.lattice[0].jitter, JitterZone::HoldZone);
    let step = bridge.observe_cooling(&mut solver, JitterZone::SnapZone);
    assert_eq!(step, BridgeStep::Snapped(0));
    assert_eq!(
        solver.lattice[0],
        BipartiteTensor { anchor: 13, jitter: JitterZone::Stable }
    );
    // node 1 has no heartbeats and is coherent: skipped; node 2 has one heartbeat
    let step = bridge.resume(&mut solver);
    assert_eq!(step, BridgeStep::Cool(2));
    let step = bridge.observe_cooling(&mut solver, JitterZone::Incoherent);
    assert_eq!(step, BridgeStep::Shattered(2));
    assert_eq!(
        solver.lattice[2],
        BipartiteTensor { anchor: 0, jitter: JitterZone::Infinite }
    );
    assert_eq!(
        solver.lattice[1],
        BipartiteTensor { anchor: 5, jitter: JitterZone::HoldZone }
    );
    assert_eq!(
        solver.lattice[3],
        BipartiteTensor { anchor: 7, jitter: JitterZone::Incoherent }
    );
    assert_eq!(bridge.snap_count(), 1);
}

#[test]
fn bridge_counts_snaps_and_leaves_rest_untouched() {
    let mut solver = solver_with(6, JitterZone::Incoherent);
    for i in 10..13 {
        solver.lattice[i] = BipartiteTensor { anchor: 12, jitter: JitterZone::HighJitter };
    }
    let (mut bridge, mut step) = solver
        .execute_secure_bridge(&TAD { range_start: 10, range_end: 13 }, false)
        .unwrap();
    let mut coolings = 0;
    loop {
        match step {
            BridgeStep::Cool(i) => {
                coolings += 1;
                // every node needs both heartbeats: hold zone, then the snap zone
                let zone = if solver.lattice[i].jitter == JitterZone::HighJitter {
                    JitterZone::HoldZone
                } else {
                    JitterZone::SnapZone
                };
                step = bridge.observe_cooling(&mut solver, zone);
            }
            BridgeStep::Snapped(_) => step = bridge.resume(&mut solver),
            BridgeStep::Shattered(_) => panic!("no node is incoherent"),
            BridgeStep::Finished(n) => {
                assert_eq!(n, 3);
                break;
            }
        }
    }
    assert_eq!(coolings, 6);
    for i in 10..13 {
        assert_eq!(
            solver.lattice[i],
            BipartiteTensor { anchor: 12, jitter: JitterZone::Stable }
        );
    }
    assert_eq!(solver.lattice[9].jitter, JitterZone::Incoherent);
    assert_eq!(solver.lattice[13].jitter, JitterZone::Incoherent);
}

#[test]
fn bridge_unrecovered_node_passes_when_coherent() {
    let mut solver = solver_with(6, JitterZone::Stable);
    solver.lattice[0] = BipartiteTensor { anchor: 6, jitter: JitterZone::HighJitter };
    let (mut bridge, step) = solver
        .execute_secure_bridge(&TAD { range_start: 0, range_end: 1 }, false)
        .unwrap();
    assert_eq!(step, BridgeStep::Cool(0));
    let step = bridge.observe_cooling(&mut solver, JitterZone::HoldZone);
    assert_eq!(step, BridgeStep::Finished(0));
    assert_eq!(solver.lattice[0].jitter, JitterZone::HoldZone);
}

#[test]
fn bridge_shatters_incoherent_node_without_heartbeats() {
    let mut solver = solver_with(6, JitterZone::Stable);
    solver.lattice[3] = BipartiteTensor { anchor: 5, jitter: JitterZone::Infinite };
    let (_, step) = solver
        .execute_secure_bridge(&TAD { range_start: 2, range_end: 6 }, false)
        .unwrap();
    assert_eq!(step, BridgeStep::Cool(2));
    let mut solver = solver_with(5, JitterZone::Stable);
    solver.lattice[3] = BipartiteTensor { anchor: 5, jitter: JitterZone::Incoherent };
    let (_, step) = solver
        .execute_secure_bridge(&TAD { range_start: 2, range_end: 6 }, false)
        .unwrap();
    assert_eq!(step, BridgeStep::Shattered(3));
    assert_eq!(
        solver.lattice[3],
        BipartiteTensor { anchor: 0, jitter: JitterZone::Infinite }
    );
}

#[test]
fn snapped_node_then_finalizes_to_its_anchor() {
    let mut solver = solver_with(6, JitterZone::Stable);
    solver.lattice[0] = BipartiteTensor { anchor: 29, jitter: JitterZone::HighJitter };
    let (mut bridge, step) = solver
        .execute_secure_bridge(&TAD { range_start: 0, range_end: 1 }, false)
        .unwrap();
    assert_eq!(step, BridgeStep::Cool(0));
    assert_eq!(bridge.observe_cooling(&mut solver, JitterZone::Negative), BridgeStep::Snapped(0));
    assert_eq!(bridge.resume(&mut solver), BridgeStep::Finished(1));
    for overloaded in [false, true] {
        assert_eq!(solver.execute_finalization_snap(0, overloaded).result, Ok(29));
    }
}

#[test]
fn bridge_refused_when_overloaded_whatever_the_range() {
    let mut solver = solver_with(13, JitterZone::Incoherent);
    let before = solver.lattice;
    let r = solver.execute_secure_bridge(&TAD { range_start: 9, range_end: 3 }, true);
    assert_eq!(r.err(), Some(ErrorState::HighLatencyIsotope));
    let r = solver.execute_secure_bridge(&TAD { range_start: 0, range_end: 500 }, true);
    assert_eq!(r.err(), Some(ErrorState::HighLatencyIsotope));
    assert_eq!(solver.lattice, before);
}

#[test]
fn bridge_skips_node_without_heartbeats_and_counts_nothing() {
    let mut solver = solver_with(6, JitterZone::Stable);
    solver.lattice[0] = BipartiteTensor { anchor: 5, jitter: JitterZone::Stable };
    solver.lattice[1] = BipartiteTensor { anchor: 6, jitter: JitterZone::HighJitter };
    let (mut bridge, step) = solver
        .execute_secure_bridge(&TAD { range_start: 0, range_end: 2 }, false)
        .unwrap();
    assert_eq!(step, BridgeStep::Cool(1));
    assert_eq!(bridge.snap_count(), 0);
    assert_eq!(bridge.beats(), 0);
    assert_eq!(bridge.current(), 1);
    let step = bridge.observe_cooling(&mut solver, JitterZone::HighJitter);
    assert_eq!(step, BridgeStep::Finished(0));
    assert_eq!(
        solver.lattice[0],
        BipartiteTensor { anchor: 5, jitter: JitterZone::Stable }
    );
    assert_eq!(
        solver.lattice[1],
        BipartiteTensor { anchor: 6, jitter: JitterZone::HighJitter }
    );
}

#[test]
fn bridge_gives_each_node_its_full_heartbeat_budget() {
    // anchor 31 affords five heartbeats; the node only snaps on the fifth
    let mut solver = solver_with(6, JitterZone::Stable);
    solver.lattice[4] = BipartiteTensor { anchor: 31, jitter: JitterZone::Incoherent };
    let (mut bridge, mut step) = solver
        .execute_secure_bridge(&TAD { range_start: 4, range_end: 5 }, false)
        .unwrap();
    let mut coolings = 0;
    while let BridgeStep::Cool(i) = step {
        assert_eq!(i, 4);
        assert_eq!(bridge.beats(), coolings);
        coolings += 1;
        let zone = if coolings < 5 { JitterZone::Incoherent } else { JitterZone::SnapZone };
        step = bridge.observe_cooling(&mut solver, zone);
    }
    assert_eq!(coolings, 5);
    assert_eq!(step, BridgeStep::Snapped(4));
    assert_eq!(bridge.resume(&mut solver), BridgeStep::Finished(1));
}
