# hydra_umc_hil_bridge

A hardware-in-the-loop command bridge, written in Verus: joint commands
are routed to the real controller or to the digital twin by mode, a
safety interlock blocks real-hardware commands when the twin reports an
imminent collision, and a transport that fails to deliver is never
reported as having delivered.

Layout:

- `src/` — the verified library.
  - `protocol.rs` — `JointCommand`, `Mode`.
  - `interlock.rs` — `TwinRiskReport`, `assess_interlock`.
  - `bridge.rs` — `CommandSink` and its sinks, `Bridge::route_command`,
    `Bridge::mirror_command`, and the routing laws.
  - `cli.rs` — flag reading and the `route`/`mirror` runs' plans and reports.
  - `service.rs` — request planning, routing and mirroring for the HTTP
    interface, and its counters.
  - `text.rs` — decimal rendering and reading, text comparison, request paths.
  - `binary64.rs` — IEEE-754 binary64 values held as bit patterns:
    `f64` equality, and fixed-decimal rendering as `format!("{:.N}")` gives it.
- `app/` — the program: command line, floating-point parsing, the
  `tiny_http` server and its JSON (serde) shapes.
- `tests/` — the test suite.

Floating-point values do not enter the library as such: a command's
position and the twin's distance are carried as their IEEE-754 bit
patterns, compared and rendered by verified integer code.
