use crystal_engine::primes::{is_prime, is_prime_checked};
use crystal_engine::solver::{
    lcc_core_operation, BipartiteTensor, Catalyst, ErrorState, GeodesicSolver, SnapProtocol,
    LATTICE_SIZE,
};
use crystal_engine::zone::JitterZone;

fn solver_with(anchor: u32, jitter: JitterZone) -> GeodesicSolver {
    GeodesicSolver { lattice: [BipartiteTensor { anchor, jitter }; 156] }
}

#[test]
fn is_prime_small_values() {
    let primes: Vec<u32> = (0..60).filter(|&n| is_prime(n)).collect();
    assert_eq!(
        primes,
        vec![2, 3, 5, 7, 11, 13, 17, 19, 23, 29, 31, 37, 41, 43, 47, 53, 59]
    );
}

#[test]
fn is_prime_edge_cases() {
    assert!(!is_prime(0));
    assert!(!is_prime(1));
    assert!(is_prime(2));
    assert!(is_prime(3));
    assert!(!is_prime(4));
    assert!(!is_prime(25));
    assert!(!is_prime(49));
    assert!(!is_prime(121));
    assert!(!is_prime(143));
    assert!(is_prime(65521));
    assert!(!is_prime(65521 * 65521));
    assert!(!is_prime(4_294_311_961));
    assert!(!is_prime(u32::MAX));
}

#[test]
fn checked_trial_division_reports_square_overflow() {
    assert_eq!(is_prime_checked(0), Some(false));
    assert_eq!(is_prime_checked(2), Some(true));
    assert_eq!(is_prime_checked(65521), Some(true));
    assert_eq!(is_prime_checked(4_294_311_961), Some(false));
    assert_eq!(is_prime_checked(u32::MAX), Some(false));
    assert_eq!(is_prime_checked(4_294_967_291), None);
    assert_eq!(is_prime_checked(4_294_967_279), None);
    assert_eq!(is_prime_checked(4_294_967_293), Some(false));
}

#[test]
fn is_prime_agrees_with_naive_division() {
    for n in 0u32..3000 {
        let naive = n > 1 && (2..n).all(|d| n % d != 0);
        assert_eq!(is_prime(n), naive, "n = {}", n);
    }
}

#[test]
fn interference_uses_gcd_of_primes() {
    let solver = solver_with(6, JitterZone::Stable);
    assert_eq!(solver.calculate_interference(7, 7), 7);
    assert_eq!(solver.calculate_interference(7, 11), 1);
    assert_eq!(solver.calculate_interference(13, 2), 1);
    assert_eq!(solver.calculate_interference(8, 7), 0);
    assert_eq!(solver.calculate_interference(1, 1), 0);
    assert_eq!(solver.calculate_interference(9, 9), 0);
}

#[test]
fn interference_is_symmetric() {
    let solver = solver_with(6, JitterZone::Stable);
    for a in [2u32, 3, 5, 6, 7, 9, 11, 13] {
        for b in [2u32, 3, 5, 6, 7, 9, 11, 13] {
            assert_eq!(
                solver.calculate_interference(a, b),
                solver.calculate_interference(b, a)
            );
        }
    }
}

#[test]
fn catalyst_selection() {
    let solver = solver_with(6, JitterZone::Stable);
    assert_eq!(solver.apply_catalyst(0, 10), Catalyst::Neon);
    assert_eq!(solver.apply_catalyst(3, 18), Catalyst::Argon);
    assert_eq!(solver.apply_catalyst(0, 0), Catalyst::Standard);
    assert_eq!(solver.apply_catalyst(0, 11), Catalyst::Standard);
}

#[test]
fn finalization_snap_in_safety_zone() {
    for zone in [JitterZone::Negative, JitterZone::Stable, JitterZone::SnapZone] {
        for overloaded in [false, true] {
            let mut solver = solver_with(31, zone);
            let out = solver.execute_finalization_snap(4, overloaded);
            assert_eq!(out.result, Ok(31));
            assert_eq!(out.protocol, SnapProtocol::Snap);
            assert_eq!(solver.lattice[4].jitter, zone);
        }
    }
}

#[test]
fn finalization_snap_shear_off_when_overloaded() {
    let mut solver = solver_with(17, JitterZone::Incoherent);
    let out = solver.execute_finalization_snap(0, true);
    assert_eq!(out.result, Ok(17));
    assert_eq!(out.protocol, SnapProtocol::ShearOff);
    assert_eq!(solver.lattice[0].jitter, JitterZone::Incoherent);
}

#[test]
fn finalization_snap_sublimation_keeps_anchor() {
    let mut solver = solver_with(17, JitterZone::Incoherent);
    let out = solver.execute_finalization_snap(9, false);
    assert_eq!(out.result, Err(ErrorState::IncoherentNoise));
    assert_eq!(out.protocol, SnapProtocol::Sublimation);
    assert_eq!(
        solver.lattice[9],
        BipartiteTensor { anchor: 17, jitter: JitterZone::Infinite }
    );
    assert_eq!(solver.lattice[8].jitter, JitterZone::Incoherent);
    // repeating the snap gives the same outcome
    let again = solver.execute_finalization_snap(9, false);
    assert_eq!(again.result, Err(ErrorState::IncoherentNoise));
    assert_eq!(again.protocol, SnapProtocol::Sublimation);
    assert_eq!(solver.lattice[9].anchor, 17);
}

#[test]
fn finalization_snap_glass_transition() {
    for zone in [JitterZone::HoldZone, JitterZone::HighJitter, JitterZone::Undefined] {
        let mut solver = solver_with(5, zone);
        let out = solver.execute_finalization_snap(LATTICE_SIZE - 1, false);
        assert_eq!(out.result, Err(ErrorState::HighLatencyIsotope));
        assert_eq!(out.protocol, SnapProtocol::GlassTransition);
        assert_eq!(solver.lattice[LATTICE_SIZE - 1].jitter, zone);
    }
}

#[test]
fn core_operation_matches_finalization_snap() {
    let zones = [
        JitterZone::Negative,
        JitterZone::Stable,
        JitterZone::SnapZone,
        JitterZone::HoldZone,
        JitterZone::HighJitter,
        JitterZone::Incoherent,
        JitterZone::Infinite,
        JitterZone::Undefined,
    ];
    for zone in zones {
        for overloaded in [false, true] {
            let tensor = BipartiteTensor { anchor: 6, jitter: zone };
            let mut solver = solver_with(6, zone);
            let api = solver.execute_finalization_snap(0, overloaded).result;
            assert_eq!(lcc_core_operation(tensor, overloaded), api);
        }
    }
}

#[test]
fn tad_assisted_snap_widens_threshold() {
    let mut solver = solver_with(23, JitterZone::HoldZone);
    assert_eq!(solver.execute_tad_assisted_snap(1, true), Ok(23));
    assert_eq!(
        solver.execute_tad_assisted_snap(1, false),
        Err(ErrorState::HighLatencyIsotope)
    );
    let mut solver = solver_with(23, JitterZone::SnapZone);
    assert_eq!(solver.execute_tad_assisted_snap(1, true), Ok(23));
    assert_eq!(solver.execute_tad_assisted_snap(1, false), Ok(23));
    let mut solver = solver_with(23, JitterZone::HighJitter);
    assert_eq!(
        solver.execute_tad_assisted_snap(1, true),
        Err(ErrorState::HighLatencyIsotope)
    );
    assert_eq!(solver.lattice[1].jitter, JitterZone::HighJitter);
}

#[test]
fn transition_node_reads_the_lattice() {
    let mut solver = solver_with(6, JitterZone::Stable);
    solver.lattice[90] = BipartiteTensor { anchor: 36, jitter: JitterZone::HoldZone };
    assert_eq!(
        *solver.transition_node(90),
        BipartiteTensor { anchor: 36, jitter: JitterZone::HoldZone }
    );
    assert_eq!(solver.transition_node(46).anchor, 6);
}
