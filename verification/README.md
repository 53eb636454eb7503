# xposeit

Expose local TCP services through a remote forwarding server.

The server pre-binds a pool of forwarding ports. A client opens a control
connection, is told to wait until a port is free, and is then assigned one;
every connection that arrives on that port is announced to the client by id,
and the client claims it over a fresh connection that is then spliced to the
local service. Control messages are JSON texts, each ended by a zero byte.

Layout:

- `src/` — the library, verified with Verus: framing (`frame`), messages,
  the listener pool (`pool`), pending forwarded connections (`pending`), the
  choice of forwarding ports (`ports`), the client's and server's session
  decisions (`client`, `server`), error texts (`text`), fixed parameters
  (`config`) and the routing rules of the HTTP tunnel (`http_tunnel`).
- `app/` — the `xpose` program: sockets, timers, tasks, JSON and the command
  line, driven by the library's decisions.
- `tests/` — tests of the library.
