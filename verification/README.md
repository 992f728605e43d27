# backstage

An actor framework's core, verified with Verus.

- `src/` is the verified library:
  - `actor::lifecycle` — the run of a started actor (init, event loop, teardown) as a state
    machine, with the laws of a run: teardown runs exactly once, last, and the result names
    the stage that ended the run.
  - `actor::launcher` — the launcher's decisions on each event and its service's statuses.
  - `actor::service` — services and their tree of inner services, names kept unique.
  - `actor::registry` — a registry of mailboxes that hands out fresh addresses.
  - `websocket` — requests, replies and actor paths; path resolution over the runtime's scopes;
    the decisions of the websocket supervisor and of each connection's receiver, with the
    replies that a whole connection gets.
  - `connection::cql` — the CQL handshake frames and checks, the shard a node reports, and the
    choice of retrying until a connection lands on the wanted shard.
  - `bundles` — the CQL `QUERY` frame that looks up a bundle's transactions.
  - `shutdown_stream`, `dependencies` — the decisions of a shutdown stream and of dependency
    requests.
- `app/` holds the asynchronous side: the actor traits and their `start` methods, the launcher
  actor, the websocket loops, the CQL socket I/O, the shutdown stream and the serializable
  copies of the websocket types. It awaits, spawns and does I/O, and takes its decisions by
  calling the library.
- `tests/` exercises the library on concrete values.
