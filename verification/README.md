# drishti

A JVM / Spring Boot diagnostics toolkit whose core is verified with Verus.

- `src/` is the verified library: the snapshot model and its derived
  metrics, the Prometheus text reader and metric-name normalisation, the
  Jolokia request builder and reply converter, the GC log parsers (unified
  prefix, G1, ZGC, Shenandoah, algorithm detection), the anomaly detectors
  and tuning rules, the time-series ring buffer, the multi-target manager,
  the range-request log tailer, the profiler's command builder and
  collapsed-stack tree, and the terminal interface's state machines (key map,
  tabs, console line editor, log book, MBean browser). Every public function
  carries a contract; fractions and percentages are integers in millionths.
- `tests/` exercises the library on concrete inputs.
- `app/` is the `drishti-jvm` program: HTTP clients, configuration loading,
  SQLite persistence, background collectors, the Ratatui screens and the
  headless `--once` mode, built on the library.
