# qt_rust_demo

The data pipeline of a crane load-moment monitor: sensor samples are
collected, filtered, processed, debounced for alarms, buffered for display
and batched into storage.

- `src/` is the library, written in Verus. Every function carries a
  contract, and the properties that span several calls (alarm debouncing,
  bounded histories, the storage queue's sequence rule, pagination, purge
  limits, retry backoff, pipeline start/stop order) are stated as proof
  functions named `law_*`. Measured quantities travel as the bit patterns of
  `f64` values; the library never does floating-point arithmetic.
- `app/` is the runtime around it: tokio channels and event loops, SQLite
  storage through rusqlite, retries with random jitter, the floating-point
  steps (window means, chart statistics, alarm texts with measurements) and
  the global view-model manager.
- `tests/` exercises the library from outside.

Not included: sensor calibration, the hot-reloadable configuration provider
and the crane data repository. They belong to the sensor-core and
crane-data-layer crates of the wider workspace, which are not part of this
crate. The collection and processing loops in `app/` therefore take the
sensor reader and the converter from their caller as functions.
