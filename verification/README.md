# starframe

Rules of a tick-based 4X space strategy game, verified with Verus.

- `src/blocks.rs` — block kinds, order kinds, the per-block stats table.
- `src/design.rs` — block placements, ship stats (mass counted in halves,
  speed as an exact ratio capped at `SPEED_MAX`), build time.
- `src/validation.rs` — design validation: distinct cells, command core,
  engine, power balance, 6-neighbour connectivity (breadth-first search).
- `src/tick.rs` — the economy phase, the SplitMix64 seed step, the clock.
- `src/settle.rs` — faction creation: name check, home system choice, settling.
- `src/seed.rs` — the starting world: systems and planets, the AI and player
  factions, and each faction's Scout design, ship and home fleet.
- `src/queries.rs` — the read-side queries of the client screens, picking.
- `src/sorting.rs`, `src/text.rs`, `src/world.rs` — ordering by id, decimal
  text, the world rows.

`app/` holds the SpacetimeDB module (tables and reducers), the egui screens,
the wgpu ship-editor viewport, and the local backend bootstrap; it calls the
library for every rule.
