# minicore

A durable store for agents and sessions that survives interruption at any point. Every change is
staged, committed by one empty marker and made visible by another; opening a store recovers exactly
what was made visible and removes at most one piece of interrupted work.

- `src/` is the verified library. It holds the store layout, the scans of a store, the recovery of
  chains of generations, the planning and carrying out of removals, reservations, publications, the
  opening of a root, the decisions of the task that owns all changes, and the diagnostics of sessions.
  It never touches a filesystem: it asks for one action at a time and takes in plain observations.
- `app/` performs these actions with the real filesystem, the lock and the tasks.
- `tests/` runs the library against a disk in memory.

Where to start in `src/`:

- `opening.rs` for the way from a root path to a catalog,
- `publication.rs` and `publication_laws.rs` for the way of a new Agent onto the disk,
- `history.rs` for what stays of an answer over all later requests,
- `crash.rs` for what an interruption leaves and what the next open makes of it,
- `cleanup_plan.rs` and `cleanup_run.rs` for the only removals there are.

The public proof functions whose names begin with `law_` state what holds of the library as a whole.
