# plex_client

A client library for the Plex web services: linking a device with a PIN,
signing device JWTs with an Ed25519 key, listing the account's resources and
choosing, per media server, which connection to use.

Layout:

- `src/` is the verified library (Verus). It decides every request (method,
  URL, token, query, default headers) and the body of each, as a value of
  its own (`PinRequest`, `TokenRequest`, with their signed JWTs), keeps the
  registry of servers and
  their connections, and states what it does in contracts. Encodings and
  cryptography come from `base64`, `ed25519-dalek`, `urlencoding`,
  `serde_json`, `http`, `uuid`, `rand` and `chrono`, behind small trusted
  wrappers whose contracts say what is assumed of them.
- `app/` is the transport: it builds the `reqwest` client, sends the
  prepared requests, parses the JSON answers with `serde`, and runs the
  loops that alternate network exchanges with the library's decisions.
- `tests/` runs the library on concrete values.
