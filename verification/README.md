# coap_observe

The server's side of observing CoAP resources (RFC 7641), verified with Verus.

A peer that reads a resource can ask to be told of its changes. `Observer` keeps
who observes what. When a resource changes, it hands out the requests that the
server has to answer once more, one for each observer; of every answer it makes a
notification, which waits for an acknowledgement and is tried again until there is
one, or until it has been tried too often.

- `src/model.rs` says what an observer is and what each operation makes of it.
- `src/observer.rs` has the operations, proved to do that.
- `src/laws.rs` has what follows for the observer as a whole, and
  `src/consistency.rs` that no operation breaks the ties between its parts.
- `src/message.rs` and `src/endpoint.rs` hold messages and peers as plain values.
- `src/coap.rs` is the only place that calls `coap-lite`. Its contracts are
  believed, not proved.
- `src/string_map.rs` is the map that the observer is built on.
- `app/` puts the observer between its channels and its timer, and has the traits
  for request handlers.

The numbers of notifications are counted up and never wrap. `Observer::can_notify`
tells whether there is one left.
