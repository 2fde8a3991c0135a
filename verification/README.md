# NexoSign core

NexoSign signs batches of PDF files (PAdES-BES) with the certificate of a
smart card or national ID card, and offers a local HTTP API on
`127.0.0.1:14500` so that web applications can hand it PDFs to sign.

## Layout

- `src/` — the library, written in Verus and verified: origin policy and
  the allowed-origins list, the request gate of the local API, PDF
  validation, staged uploads and pending intents, the batch limits and job
  snapshots, the batch signing loop, the byte-level PAdES work (ByteRange,
  digest, Contents), the values of the signature dictionary and its
  appearance, the DER attributes of the CMS, the PKCS#11 driver, slot and
  certificate rules, the PIN session, and the queue history as stored.
  Calls into outside crates (hex, SHA-1/SHA-256, base64, X.509 parsing, PNG
  decoding, zlib, JSON, UUIDs, the clock) go through small trusted wrappers
  whose contracts are stated next to them.
- `app/` — the service around the library: the axum server, the SQLite
  database, the PKCS#11 token (cryptoki), the lopdf and CMS objects of a
  signature, the batch worker and the operations the desktop UI invokes.
- `tests/` — tests of the library's public functions.
