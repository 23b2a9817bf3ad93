# dictyon

The client's side of a mesh network's control protocol, verified with Verus.

A control connection starts as an HTTPS request that is upgraded: the client
fetches the server's public machine key, sends the first message of a Noise IK
handshake in an HTTP header, reads the server's reply behind the response
headers, and from then on exchanges encrypted frames.

- `src/` is the library. It does no I/O. Keys, framing, the order of the
  handshake's steps, the requests, the reading of responses and the encrypted
  session all have contracts that Verus proves. What is taken on trust from
  outside crates (`snow`, `x25519-dalek`, `rand`, `base64`, `serde_json`,
  `rustls`, `zeroize`) and from the standard library stands in `src/boundary.rs`.
- `tests/` runs the library against the real crates, with `snow` as the server.
- `app/` moves the bytes: TCP and TLS streams with `tokio`, the JSON form of the
  protocol's messages, and the errors as a chain of sources.
