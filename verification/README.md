# arrows

An actor system: actors receive mail one message at a time, answer with mail of their
own, and are addressed by name, host and port, so that mail can travel between nodes.

The library under `src/` is verified with Verus. Public functions state what they return
or change; where a result comes from an actor's own code, the clock, randomness or std's
hasher, the contract says what holds whatever came back, or names the value. The
properties that span functions are proved as lemmas.

- `text`, `codec`: the characters and bytes the system reads and writes (numbers, IP
  addresses, bincode's layout).
- `config`, `addr`, `address`, `ids`: node settings, actor addresses, message ids and times.
- `mail`, `msg`, `message`: messages, their contents, and the mail that carries them.
- `actor`, `catalog`: what an actor provides, and how a node runs its actors: sequence
  numbers, buffered replies, panic tolerance and eviction.
- `registry`, `sysactors`: in-memory pools of actors and the node's system actors.
- `events`, `pubsub`, `sql`: store events, their buffering, and the store's statements.
- `routing`, `wire`, `show`: grouping outgoing mail by node, framing it, the listener's
  decisions, and the printed forms of values.

`app/` holds what runs around the library: reading the environment, the SQLite store, the
node's runtime and dispatcher, sockets, and the serde forms of the library's types.
`tests/` exercises the library on concrete values.
