# rust_rts

The rules of a real-time strategy prototype as a verified library: every
public function carries a contract, and the library's laws are proof
functions checked by Verus.

## Layout

- `src/` — the verified library.
  - `benchmark/` — command line, suite composition, the orders that start
    a measured run, run verdicts, the end of run checksum with its repeat
    ledger, and the span profiler.
  - `combat/` — volley and spread hashes, splash membership, the fire gate
    and shot plans, target locks and scans, and the per-unit behaviour
    resolution (markers, move targets, order completion).
  - `economy/` — building table, which builders power a site, status lines.
  - `fog/` — per-team visibility and explored memory, concealment.
  - `game_over.rs`, `scenario.rs`, `session.rs`, `replay.rs` — match end,
    setup, perspective, and deterministic tick checksums.
  - `navigation/` — the map generator's random stream, the key-point
    connectivity check, spawn-point repair and formation slots, the
    planner's budget and search arena.
  - `orders/` — order intents, queues, patrols, right-click plans, armed
    orders, and the order lines on screen.
  - `production.rs` — factory queues and blocked exits.
  - `selection.rs` — box and click selection, ray picks.
  - `spatial.rs` — the per-frame spatial index of units and buildings.
  - `structures/` — placement rules, footprint occupancy, metal deposits.
  - `ui/` — diagnostics settings, the map-input gate, dock buttons,
    placement verdicts, the shell's perspective and disclosure rules.
  - `units/` — teams, ids, unit kinds and army composition.
- `tests/` — tests of the library on concrete values.
- `app/` — the command-line front end and the floating-point geometry
  around the library (fog rasterisation, obstacle layout, formations,
  combat offsets, distance measurements, statistics, report files).

Positions, distances and timings are floating-point and live on the engine
side; the library receives the integers, flags and identifiers it decides
on.
