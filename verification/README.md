# rust-ws-benchmark

A WebSocket benchmark: a server on an entity component system, a stand-alone server, and a client
that loads them. What the three decide and count is a library that Verus verifies; sockets, tasks,
JSON and logging stand round it.

- `src/` is the library.
  - `channel` and `registry`: the bounded outgoing channel of each client, found by address.
  - `ecs`: the server on the entity component system. `systems` holds its steps: how clients come
    and go, echoes, broadcasts, statistics.
  - `table`, `server` and `session`: the stand-alone server.
  - `writer`: what writes the frames of a channel to its client, in both servers.
  - `client`: what a benchmark counts, what it sends when, and what it reports.
  - `laws` and `histories`: what holds across these, stated and proved; the second of a connection
    from its first frame to its last.
- `app/` is the programs `bevy-server`, `server` and `client`. The name that the program is called
  by tells which one runs.
- `tests/` runs the library with the real channels and the real address index.

Two things are kept out of the library. Fractions are: a rate is a quotient of two integers there,
and is divided out where it is printed. So are clocks: every function that needs the time is handed
it, in nanoseconds for intervals and in milliseconds for time stamps.
