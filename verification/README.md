# nurtex

The core of a Minecraft protocol client, verified with Verus.

- `src/` is the verified library: the wire codec of the basic types
  (`VarInt`, `VarLong`, big-endian integers, booleans, strings, UUIDs,
  options, vectors, client intentions, profile properties), packet layouts
  and the packets built on them (the handshake, status and login families,
  and the configuration and play packets whose fields are plain values),
  network framing with zlib compression and AES/CFB-8 encryption, the
  encryption handshake, connection states, and the reconnection decision of
  a bot.
- Packets read back as they were written, and frames read back as the
  packets they carry, under the conditions stated in `roundtrip.rs` and
  `frame.rs`. What CFB-8 encryption produces is stated over a named AES-128
  block function, and decrypting it with the same key and stream position
  gives the plaintext back (`encrypt.rs`). What the RSA calls return is
  stated as a relation between key, message and ciphertext, since their
  padding is random.
- `app/` is the asynchronous side that Verus does not see: TCP sockets with
  `tokio`, the reader and writer halves of a connection, floating-point
  fields, and the loop that reconnects a bot.
- `tests/` runs the library on concrete values.
