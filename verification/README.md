# aide_de_camp

A backend-agnostic delayed job queue. Jobs are scheduled with a type, a payload, an instant
from which they may run and a priority; workers check them out, run them, and then complete
them, return them to the queue for another try, or move them to a dead queue once their retries
are used up.

## Layout

- `src/` — the library, verified with Verus:
  - `table.rs`: the queue's table and its operations (schedule, check out, complete, fail,
    move to the dead queue, cancel, unschedule), and the row a checked-out job is read into.
  - `router.rs`: which handler runs which job type, and what becomes of a job after it ran.
  - `runner.rs`: the runner's options and decisions, including the polling jitter.
  - `schedule.rs`: recurring-job schedules and the in-memory store ordered by next run.
  - `job.rs`: the settings every job handler has (type name, retries, shutdown timeout).
  - `time.rs`, `ids.rs`, `error.rs`: instants, spans, job ids and errors as plain values.
  - `laws.rs`: properties that span several operations, proved.
- `tests/` — tests of the library on concrete values.
- `app/` — the asynchronous side: the `JobProcessor` and `Queue` traits, the router and runner
  loops, the SQLite-backed queue, an in-memory queue on the verified table, and the shared
  schedule store.
