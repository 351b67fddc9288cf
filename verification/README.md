# innomonitor

A verified library for a desktop monitor of user activity and network
traffic, with the program around it.

- `src/` — the library, verified with Verus:
  - `activity/` — which input events count as activity, the tracker's
    decisions, the encrypted log
    format (records, validation, reading back) and the day report built
    from a log;
  - `traffic_monitor/` — reading captured frames, packet de-duplication,
    the per-adapter host and service tables, the monitor's statistics,
    periodic sessions and simulated traffic;
  - `network_storage/` — sessions and daily summaries: consolidation into
    half-hour groups, day totals, summary and backup files, retention;
  - `adapters.rs`, `network_engine.rs` — choosing and watching adapters;
  - `persistent_state.rs`, `state_manager.rs`, `health_monitor.rs`,
    `logger.rs`, `system_verification.rs` — the application's remembered
    state, health reports, log and dependency checks;
  - `text.rs`, `ordering.rs` — text helpers and the stable ranking used
    throughout.
- `tests/` — tests of the library on concrete values.
- `app/` — the program: files, packet capture, the HTTP report server,
  time-zone dependent day handling and the stored (JSON) forms of records.
