# detterot

The deterministic core of the Detterot prototype, written in Verus: every function in
`src/` carries a `requires`/`ensures` contract that Verus proves.

## Layout

- `src/economy/` — daily index (DI), hub basis, player power and plantings, rot
  conversion, interest, pricing and rounding, the seeded economy generator, and the
  daily step that ties them together (`state::step_economy_day`).
- `src/director/` — spawn budgets and spawn tables, missions, the director's per-tick
  decisions, the pause wheel and its input queue, and the director's seeded generator.
- `src/save/` — save formats (v1, v1.1, v1.2), migrations between them, canonical
  ordering, and snapshots of the running game.
- `src/replay.rs`, `src/replay_laws.rs`, `src/command_queue.rs` — recorded commands, replay
  checking, and when a replay matches.
- `src/cargo.rs`, `src/weather.rs`, `src/gameplay.rs`, `src/scheduling.rs`,
  `src/sim.rs` (the simulated day of several hubs on one economy), `src/runtime.rs`,
  `src/logs/` — smaller pieces used around them.
- `app/` — the command-line economy simulator and the file, serde and clap glue
  (rulepack and director config loading, save files, JSONL logs).
- `tests/` — scenario and golden-value tests run against the compiled library.

Calls into outside crates (BLAKE3, xoshiro256++, wyhash) sit behind small trusted
wrappers whose contracts name their results; everything built on them is verified.
