# reflexer

A Tetris decision engine served over a line-JSON protocol, with its
data formats and trust rules verified in Verus.

## Layout

- `src/` — the verified library.
  - `vessel` — the signed artifact format: header layout, pin table and key
    resolution, the checks that run before any signature (magic, version,
    length, size bound), strict Ed25519 verification, the payload commitment,
    and the floor and monotonic-version gates.
  - `record` — trajectory manifests: the signed message, sealing, and
    verification against the rows file; hex encoding and decoding.
  - `state_codec` — the wire game state: board rows, piece letters, bag
    checks, in both directions.
  - `engine`, `lane`, `serve`, `proto` — question routing, option labels,
    the hold rule, and the protocol's error vocabulary and envelopes.
  - `le`, `text` — little-endian fields, hex and decimal text.
  - `crypto` — the trusted wrappers around `blake3` and `ed25519-dalek`.
- `tests/` — the test suites, run against the compiled library.
- `app/` — the program around the library: stdio loop, files and keys,
  JSON (serde copies of the library's types), the floating-point readouts,
  and the search engine from the game substrate.
