# tls_outputter

A TLS handshake analyser. Given the bytes that pass over a connection, it
records the TLS records and handshake messages they carry, decodes hello,
certificate, finished and session-ticket messages, renders the server's
certificate chain, explains the negotiated cipher suite and its key
schedule, judges post-quantum readiness, and assembles a report.

## Layout

- `src/` — the library, written and proved with Verus.
  - `tls/stream.rs` — the recorder: TLS record walking, message numbering,
    inferred TLS 1.3 messages, and decryption of kept records.
  - `tls/handshake.rs` — handshake message names and body decoding.
  - `tls/certificates.rs` — certificate rendering on top of `x509-parser`.
  - `tls/crypto.rs` — SHA-256 and AEAD opening, borrowed from `ring`.
  - `tls/encryption.rs`, `tls/pqc.rs`, `tls/session.rs`, `tls/http.rs` —
    what the suite, the key exchange, resumption and the HTTP exchange mean.
  - `tls.rs` — labels, the handshake flow and the report.
  - `summary.rs`, `cli.rs`, `text.rs`, `error.rs` — table cells, the command
    line, string helpers and error messages.
- `app/` — the command-line program: networking through `rustls`, the
  comparison table and JSON output.
- `tests/` — tests of the library on concrete inputs.
