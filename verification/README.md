# artifact-trust

Verification of signed release and plugin artifacts against explicit GitHub
signer requirements, written in Verus.

- `src/` is the verified library:
  - `json.rs`: a JSON document as the bundle reader sees it.
  - `proto_json.rs`: the proto3 JSON mapping (field names, `null` defaults,
    `int64`, `bytes`), with its laws.
  - `sigstore_bundle.rs`: the Sigstore bundle schema and its reader,
    including the `content` oneof rules.
  - `verification_key.rs`: choosing a signature algorithm from a key's
    SubjectPublicKeyInfo, and checking signatures with AWS-LC.
  - `base64_codec.rs`: base64 decoding through the `base64` crate.
  - `tuf_refresh.rs`: the decisions of the TUF trust refresh.
- `app/` holds what stays outside verification: the serde forms of the public
  types, tokenising JSON text with `serde_json`, and the network refresh with
  `tough` and `reqwest`.
- `tests/` runs the library with the real outside crates.
