# netty

An opinionated networking engine: clients send packets to a server over TCP
(or a websocket in the browser), and the server answers through a handler that
names, for each outgoing packet, the address of the connection it is for.

- `src/` is the verified core (Verus): the client's packet buffers
  (`client`), the server's outgoing packets and their routing to connections
  (`outbox`), socket addresses and the interface a server binds (`address`),
  websocket URLs and message kinds (`websocket`), and tick pacing (`timing`).
  The laws that span several calls stand in `client`, `outbox`, `websocket`
  and `timing` as public proof functions named `law_*`; `address` has only
  exact contracts.
- `app/` is the networking around it: sockets, threads, clocks, the default
  configurations and the wasm front end.
- `tests/` runs the core on concrete values.
