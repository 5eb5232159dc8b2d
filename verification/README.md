# frog

The core of a multi-party homomorphic-encryption service, verified with Verus.

A coordinating server holds a session. Clients join it with their public key
shares and ring packing key shares; once every participant has joined, the
server aggregates those shares into the session's public key. Clients then send
bootstrapping key shares, which workers aggregate, and encrypted inputs, on
which workers compute a function. Each client finally decrypts the result with
the decryption shares of its peers.

- `src/` is the verified library: entities and their identifiers, the
  decisions of the server (`server::session`), of the workers
  (`worker::session`) and of a client node (`client::flow`), the in-memory
  session store, the conversion between numbers and their bits, and the
  requests that nodes send each other.
- `app/` holds what runs around it: HTTP routes and clients, the asynchronous
  services, and the persistence format. The homomorphic-encryption operations
  are reached through the traits in `app/fhe.rs`.
- `tests/` exercises the library on concrete values.
