# vortex_mod_gofile

Gofile share-link resolution for the Vortex plugin host, verified with Verus.

- `src/url_matcher.rs`: recognises `https://gofile.io/d/<folder>` and the
  per-file shape `https://gofile.io/d/<folder>/<file>`, and takes their ids
  apart; contracts over a character-level model of the URL.
- `src/api_client.rs`: builds the `createAccount` / `getContent` requests,
  vets HTTP answers, and reads decoded API envelopes into a folder whose
  files are sorted by id.
- `src/lib.rs`: the host-facing answers (`can_handle`, `supports_playlist`,
  `extract_links`, `resolve_stream_url`) as functions of the URL and of the
  resolved folder, and the folder lookup as a step function (`createAccount`,
  then `getContent` with the minted token).
- `src/laws.rs`: proofs that tie these together (per-file URLs round-trip,
  listed links resolve back to their file, a lookup sends exactly two
  requests, percent-encoding keeps queries
  well-formed, ...).
- `src/text.rs`, `src/encoding.rs`: character searching, comparison and
  UTF-8 length helpers.
- `app/`: the WASM plugin exports, the HTTP round trips through the host,
  and the serde forms of the JSON documents.
