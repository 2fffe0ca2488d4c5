# skycomet

Satellite tracking support for amateur radio ground stations: two-line
element sets, the SatNOGS catalog, NOAA space weather, telemetry frames, sync
scheduling and data-driven rotor protocols.

- `src/` is the library, verified with Verus. It holds the parsing,
  normalization, validation and decision logic, each public function with a
  contract over spec functions, and the laws of the library as proof
  functions. Calls into chrono (in `src/time.rs`) and into the few std
  functions that vstd does not specify (in `src/text.rs` and
  `src/rotor/engine.rs`) go through trusted wrappers with stated contracts.
- `app/` is a command-line program around the library: SQLite storage,
  HTTP through `curl`, the sync loop, and the floating-point parts (SGP4
  propagation, pass prediction, RF budgets, rotor kinematics).
- `tests/` exercises the library on concrete values.
