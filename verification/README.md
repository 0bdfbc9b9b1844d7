# broadcast_wsrpc

A message bus spoken over WebSockets, with an HTTP interface for plain request/response.
Clients send requests (each under a random UUID); the server hands them to the application,
optionally echoes them to every client, and answers them with replies that carry the request's
id. The server can also broadcast notifications, and it writes an error message to the bus,
for every client, when a frame cannot be read as a request. Requests may come as JSON text
frames or as MessagePack binary frames.

Layout:

- `src/` — the bus's logic, verified with Verus: the message model (`message`), frames
  (`frame`), the server's state and steps (`server`), loop-back clients (`loopback`), the
  client's side (`client`), identifiers (`ids`), the channel hand-overs (`channel`), and
  properties that span several server steps (`laws`).
- `app/` — the transport: tokio tasks, WebSocket and HTTP I/O, and JSON and MessagePack
  encoding with serde.
- `tests/` — tests of the library on concrete values.
