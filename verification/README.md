# tcpstate

The state of TCP sockets, without any I/O: the user of the library hands in segments
and points in time, and is called back with segments to send and events to handle.
What every function does is stated in its contract and proved by Verus. What the
proofs rest on beyond that:

- The `Protocol` trait promises nothing: of a call that a connection passes on to its
  protocol, the contract says that it is made, and with what.
- The `UserData` trait promises that a history of the calls to the user is kept. Verus
  holds an implementation to it only where Verus sees the implementation.
- The contracts of six small functions, which call the hash set of `hashbrown` and
  `core::str::from_utf8`, are taken on trust. Nothing is claimed of the functions of
  `core::fmt` that debug prints call, so what they print is not stated.

- `segment`: sequence numbers with wrap-around, header flags, segments
- `state`: states of a connection, and which may follow which
- `queue`, `rx`, `tx`: the byte streams of the two directions
- `rtt`, `timers`, `time`: round-trip times, timers, lengths of time
- `event`, `suspended`: suspended calls and their cookies, kept in a hash set
- `listen`, `socket`: listening sockets, and sockets in whichever role
- `connection`: connections, over the protocol that they run
- `printing`: what debug prints need of the standard library
- `user_data`: what the user implements

Proof functions whose names begin with `law_` state what holds of several operations
together. `app` has the clock of the operating system and errors that can be stored.
