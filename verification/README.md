# jsonrpc_fdpass

JSON-RPC 2.0 with file descriptor passing over Unix stream sockets, written in Verus.

- Messages are JSON objects, one after the other on the stream, with or without whitespace
  between them.
- File descriptors travel as ancillary data. A message that has some says in its top-level `fds`
  member how many.
- The receiver keeps a byte buffer and a first-in, first-out queue of file descriptors. It takes a
  message out as soon as it is whole, and the file descriptors that it asks for with it.
- A stream that is no JSON, and a message that asks for more file descriptors than there are, are
  fatal errors: the connection is at its end, nothing more is delivered, and the file descriptors
  that were left are dropped. The same holds when file descriptors were lost on the way.

## Layout

- `src/` is the library. It decides and proves, and performs no I/O.
  - `json`: JSON values and what they mean.
  - `value`, `codec`: the way to and from `serde_json`'s values and texts.
  - `message`: requests, responses, notifications, and messages with file descriptors.
  - `transport`: the sender, the receiver, and the transmission of a message write by write.
  - `client`: a client that numbers its requests.
  - `placeholder`: objects in the parameters that stand for file descriptors.
  - `roundtrip`, `stream`: what is proved of single messages and of whole conversations.
- `app/` connects the library to sockets, with tokio and rustix.
- `tests/` runs the library.
