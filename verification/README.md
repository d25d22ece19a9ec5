# freeswitch_esl_tokio

A FreeSWITCH Event Socket Layer (ESL) client library whose protocol logic is
verified with Verus.

- `src/` is the verified library: the wire framing parser and its buffer,
  header maps and events (plain, JSON and XML event bodies), command wire
  formats and replies, command-string builders (endpoints, originate, bridge,
  channel commands, dialplan applications), the background-job tracker, and
  the decisions of the connection's tasks (message routing, liveness, event
  queue overflow, the authentication handshake, re-exec teardown).
  Every public function states what it returns in its contract (where an
  outside call decides a value, the contract names the outside result); the
  laws the library keeps (round trips of names, quoting and escaping, dial strings,
  variable blocks, originate commands and the plain event format, the
  parser reading the same messages however its input is cut, header
  updates, the job tracker and the buffer) are public proof functions.
- `app/` is the async client around it (tokio sockets, tasks, channels and
  timers); it performs the I/O each verified decision calls for.
- `tests/` runs the library on concrete inputs.
