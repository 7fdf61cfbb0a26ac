# session_messaging

Messaging between the live sessions of one app-server process, with its rules
verified in Verus.

- `src/` is the verified library: the outbound budget, which sessions can be
  reached, the listing and sending tools as state machines, what a message may
  hold and how it is rendered, and the history of received messages with the
  lines that show it.
- `app/` connects the library to the host: it looks sessions up, hands messages
  over, reads and writes JSON, and registers the hooks.
- `tests/` runs the library with the crates it calls.

A tool call is a sequence of steps. Each step of the library says what it needs
next (a session looked up, a message handed over), and goes on with the answer.
