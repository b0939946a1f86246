# vessel_constellation

An N-body simulation of a fleet of software vessels (gravitational bodies whose
mass is their repository count) and the repositories orbiting them.

- `src/` is the verified library. It holds the plain-value logic of the
  simulation: reading a vector as a point of 3-space (`vector`), finding
  vessels and repositories by name (`fleet`), deciding what a perturbation
  event does to the fleet (`perturbation`), and how many components an
  integration step updates on each vessel (`integration`).
- `app/` holds the floating-point state and arithmetic (vessels, orbits, the
  gravitational field, conserved quantities, leapfrog and Euler steps) and
  calls the library for each of those decisions. Its modules carry the
  simulation's own unit tests on the floating-point behaviour.
- `tests/` exercises the library on concrete fleets.
