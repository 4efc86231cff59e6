//! A verified core of the Linear Conglomerate Calculus solver.
pub mod bridge;
pub mod buckets;
pub mod laws;
pub mod primes;
pub mod recovery;
pub mod solver;
pub mod zone;
pub mod purpose;
