# stecker

A digital patch bay: a server distributes low latency audio and control
signals between peers over WebRTC, with a GraphQL API for the signalling and
an OSC-over-TCP control connection for dispatchers.

## Layout

- `src/` — the signalling logic, verified with Verus:
  - `codec` — base64 transport of session descriptions (with its round trip);
  - `models` — the kinds of channel data and their labels;
  - `room` — a broadcast room: its channels, its lifecycle (counting active
    connections, scheduling and cancelling its deletion) and the rewriting
    of RTP sequence numbers when an audio sender is replaced;
  - `dispatch` — dispatchers and their three selection strategies;
  - `registry` — the server's rooms and dispatchers by name, and the
    handling of control requests. Rooms and dispatchers are kept in vectors
    with the invariant that no two share a name, in place of maps keyed by
    name: with string keys the map specifications prove little;
  - `osc` — OSC messages, their stream framing and the dispatcher request;
  - `events` — room events and the OSC messages that announce them;
  - `views`, `api`, `client` — page templates and redirects, and the
    request bodies of the signalling clients.
- `app/` — the server program around the library: HTTP (GraphQL and pages),
  the TCP control connection, and the WebRTC connections.
- `tests/` — tests of the library.

Two programs of the project are not built here: the command line client's
program (only its requests, in `src/client.rs` and `app/client_api.rs`), and
the SuperCollider plugin, which works on `f32` sample buffers and Opus frames
behind a C++ bridge that needs a build script.
