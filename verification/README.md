# reliable_udp

The decision logic of a reliable UDP endpoint, with proofs: which connection a
frame belongs to, what happens to connections over their lifetime, and which
timers fire when. Contracts and proofs are written for Verus.

* `src/socket` routes frames to connections, keeps frames that come before their
  connection, judges connection attempts, lets identifiers drain before they are
  used again, and turns frames into datagrams and back.
* `src/timer` holds a timing wheel, the timer tasks around it, an actor that
  gathers requests into batches, and the pools and dispatchers that events pass
  through.
* `src/outside.rs` lists the calls into other crates and what is taken on trust
  about them.
* `app` holds the asynchronous tasks that own sockets, channels and clocks. They
  hand events to the library and carry out its answers.
* `tests` runs the library on concrete values.

The library reads no clock and does no input or output. Times are nanoseconds
that the caller passes in. Where something has to be awaited, a call says what is
to be done, and a second call takes the outcome.
