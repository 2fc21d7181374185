# mcp_hub

A process manager for MCP servers ("PM2 for MCP servers"): it starts the
servers named in `mcp-hub.toml`, restarts them with exponential backoff when
they crash, pings them for health, collects their logs, and can run as a
daemon controlled over a Unix socket.

The decisions and formats of the hub are a library verified with Verus:

- `src/config.rs`, `src/outline.rs`, `src/env_expand.rs`: config
  validation, unknown-field warnings, env-file merging, `${VAR}` expansion,
  and how global and local config files combine.
- `src/supervisor.rs`: the restart supervisor as a state machine, with its
  laws (failure counting, `Fatal` after the attempt limit, restart and stop
  behaviour).
- `src/logs.rs`, `src/calendar.rs`: per-server ring buffers, the merged
  timeline ordered by capture time, and RFC 3339 timestamps.
- `src/mcp/`: request ids, JSON-RPC requests, health-check transitions.
- `src/init.rs`: the `init` wizard's name rules and TOML block writing.
- `src/cli.rs`, `src/output.rs`, `src/control.rs`, `src/daemon.rs`,
  `src/web/`: command-line and console commands, the status table, the
  daemon protocol, stale-file cleanup, the log stream markup.

`app/` is the program around the library: argument parsing, file and socket
I/O, process spawning, signals and the async runtime.  `tests/` exercises
the library with concrete values.
