# polykit

A verified library for Supabase-backed desktop apps: a hybrid sync engine (`polybase`), a
structured logger (`log`) and SF Symbol icon support (`polysym`, `polysym_build`).

## Layout

- `src/` — the library, checked by Verus. Every public function carries a contract; the laws
  that relate several functions are public proof functions beside them.
  - `polybase/` — the frozen sync contract, the replay reducer and reconcile planner, the
    offline queue and its SQLite finalisation plan, the entity registry and schema
    validation, AES-256-GCM field encryption, Edge Function / PostgREST / Storage request
    building and reply classification, the realtime connection and supervisor state
    machines, and the write flow (local first, echo before push, queue on transient failure).
  - `log/` — levels, per-target filters, console and file line rendering, and the cleaning of
    `Debug` output into JSON.
  - `polysym.rs`, `polysym_build.rs` — light/dark icon selection, SVG post-processing, the
    exporter's batch inputs and the generated icon table.
  - `text.rs` — character-level helpers shared by the rest.
- `tests/` — executable tests of the library.
- `app/` — the runtime around the library: HTTP and websocket I/O, the async coordinator,
  SQLite and file persistence, tracing layers, and the icon build script.
