# chat

A terminal chat system: a server that registers and authenticates users and
forwards messages between connected clients, and a client with a terminal
chat view.

- `src/` is the verified library (Verus): the wire format of handshake
  requests, responses and chat messages with its round-trip and uniqueness
  laws; the server's user store, handshake and routing table; the client's
  handshake replies, session stages, key handling and message layout.
- `app/` runs the two programs on top of it (`app server` or `app` for the
  client): sockets, framing, the terminal, the CSV file of users.
- `tests/` exercises the library on concrete values.
