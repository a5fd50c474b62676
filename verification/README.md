# gluon_ipc

The wire layer of gluon's IPC over strong-ipc, verified with Verus.

A message is `[u32 LE transaction code][payload bytes...]` plus an ordered list of
descriptors. `src/` holds the verified library:

- `encoding.rs` — the byte-level model of the format (little-endian integers, two's
  complement, length-prefixed UTF-8 strings) and the law that a payload read against the
  schema it was written with gives back the values written;
- `data.rs` — `DataBuilder` and `DataReader`, whose contracts are stated over that model
  (each read states what it returns and which bytes it leaves unread, so reads chain),
  the law that a sealed frame splits back into its code and payload, and the laws that a
  read of the kind just written hands back the value and leaves what followed it;
- `codegen_info.rs` — the `Derives` flag set and the descriptions of external protocols;
- `refs.rs`, `reply.rs`, `lib.rs` — `LocalRef`, the reply code, `Context`, `SendError`
  and the interface traits;
- `external.rs` — the outside types carried opaquely and the trusted contract of
  `String::from_utf8`.

`app/` holds what touches the kernel or the async runtime: sending, descriptor
duplication, node construction, liveness, replies, floats, and the error types'
`Display` impls.
