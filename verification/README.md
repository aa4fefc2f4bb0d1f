# herdr

The decision core of a terminal workspace server, verified with Verus.

A server keeps terminal sessions alive and shows them to attached clients. Other
hosts can mount a session over a federation connection. This library decides who
controls a mount, which client owns the screen, what every client is sent, and
what is drawn where. It performs no I/O.

- `src/server/` holds the lease on a mount, the commands of a peer, the
  connection of a peer, the clients of the headless server, its event loop, the
  snapshot that clients draw, and the staging of pasted images.
- `src/ui/` turns the state of the interface into a plan of drawing operations.
- `src/workspace.rs` keeps the tabs and panes of a workspace, `src/session.rs`
  names sessions and lists them.
- `src/terminal/` registers running terminals.
- `src/text.rs`, `src/lines.rs`, `src/path.rs`, `src/geometry.rs` and
  `src/idset.rs` are the parts that the others share.
- `app/` holds sockets, threads, files, players and painting.
- `tests/` runs the library on concrete values.

What holds of several functions together is stated by the public proof functions
whose names begin with `law_`. What is taken from other crates on trust stands in
`src/encoding.rs`, `src/geometry.rs`, `src/json.rs`, `src/lines.rs`,
`src/path.rs` and `src/server/federation_actor.rs`, each with a comment that says
what is claimed.
