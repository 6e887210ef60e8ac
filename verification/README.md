# analog_spectral

Eigenvalue estimation as mechanical settling: dials converge under gravity,
friction creates deadbands, and a thermostat decides how much effort a
spectral computation needs.

The crate is a Verus project.

- `src/` is the verified library: the thermostat's deadband control
  (`thermostat`), the iteration bookkeeping of settling runs (`convergence`)
  and the layouts of coupling matrices (`matrix`). Every function there has a
  contract that Verus proves.
- `app/` holds the floating-point dynamics — dials, dial banks, gravity
  fields, Rayleigh quotients, spectral-gap and precision analysis — which the
  verifier cannot reason about. It calls the library for every decision and
  layout that does not depend on floating-point values.
- `tests/` exercises the library on concrete values.
