# gaze

A verified client library for the Gaze publish/subscribe server.

`src/` holds the library, checked by Verus:

- `command`: the command set and its byte encoding.
- `wire`: little-endian integers.
- `protocol`: the `ReadProtocol` and `WriteProtocol` traits, a byte buffer
  that frames are written into and a reader over bytes that have arrived.
- `reader`: decoding of the frames the server sends, and the bookkeeping of
  pending acknowledgements and subscriptions.
- `gaze`: the registry of message types and the frames for adding a type,
  publishing and subscribing.
- `ids`: a map keyed by byte strings.
- `client`: a second command set with ten-byte ids and a model registry.
- `hashing`, `entropy`, `json`, `avro`: the calls into fasthash, rand, the
  clock, serde_json and avro-rs, with what is trusted of each.

`app/` holds the program: the TCP connection, the task that reads frames,
and a producer and a subscriber.
