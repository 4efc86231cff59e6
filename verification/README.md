# crystal_engine

The verified core of the CrystalEngine LCC solver, written in Verus.

The solver works on jitter residues held as `f32`. The library takes the zone of each
residue (`zone::JitterZone`: below zero, one of the five buckets between 0, pi/12, pi/6,
pi/4 and pi/3, infinite, or undefined) and takes every decision on it:

- `primes`: primality of anchors and the interference of two prime anchors (their greatest
  common divisor, computed by `num-integer`).
- `solver`: the snap-failure protocol (snap, shear-off, sublimation, glass transition), the
  TAD-assisted snap and the bare LCC core operation.
- `bridge`: the TAD-bridge as a state machine; the caller cools the residues and reports the
  zone each one reaches.
- `buckets`: the delta distribution, the LCC core benchmark tally and resonance recovery.
- `recovery`: recovery profiles, their boost bands and the recovery report tallies.
- `laws`: properties that relate these operations to one another.

`app/` is the benchmark program: it generates the noise samples, classifies residues into
zones, keeps the thermal load, times the runs and prints the reports.
