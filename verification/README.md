# assurance

Point-in-time factuality assurance for long-tail entities, as a verified
library. Given a mention of an entity, the stack resolves it against
registry fixtures, scores factual confidence, retrieves documents under an
Ed25519-signed attestation, decides whether to answer, ground or abstain,
and renders a response whose every span records where it came from.

## Layout

- `src/` — the library, verified with Verus:
  - `types.rs` — entity identity, confidence, retrieval, decision and
    provenance data; scores are fixed-point millionths.
  - `time.rs` — UTC instants and their RFC 3339 text.
  - `hex.rs` — lowercase hex encoding and the two-bytes-at-a-time decoder.
  - `text.rs` — case folding, trimming, byte-level search, decimals.
  - `crypto.rs` — BLAKE3 digests and Ed25519 keys and signatures.
  - `entity.rs` — registry resolver and reference confidence scorer.
  - `policy.rs` — the threshold abstention policy.
  - `retrieval.rs` — attesting retriever, canonical payload, verification.
  - `backends.rs` — the deterministic stub backend honoring the decision.
  - `eval.rs` — evaluation cases, samplers and the suite runner.
- `tests/` — scenario tests and tests of the contracts.
- `app/` — the command line: reads a JSON fixture, runs the pipeline and
  prints the provenanced output as JSON (`demo` runs the long-tail miss).
