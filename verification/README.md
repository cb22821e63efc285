# ramz

Compress-and-encrypt archiving with machine-checked contracts. The library in
`src/` is written in Verus: Verus proves every executable function against
its `requires` / `ensures` contract (a function that only draws randomness,
such as the salt generator, promises nothing of its result), and the formats
and key schedules are described by spec functions that the contracts speak
of.

## Layout

- `src/error.rs`, `src/bytes.rs`, `src/text.rs`, `src/paths.rs`: the error
  type, little-endian fields, text (white space, decimal numbers, lines, hex)
  and path handling.
- `src/primitives.rs`: the thin, trusted calls into the cryptography and
  compression crates (Argon2id, ChaCha20-Poly1305, ML-KEM-768, SHA-256, zstd,
  age, tar). Their contracts are the assumptions the rest relies on.
- `src/argon2_kdf.rs`, `src/mlkem_hybrid.rs`: key derivation, key
  encapsulation and the hybrid secret combiner.
- `src/container.rs`, `src/container_open.rs`, `src/container_seal.rs`: the
  `RMZ1` container: its byte layout and parser (proved inverse to each other),
  the order in which opening reads fields and derives keys, and sealing.
- `src/identity.rs`: the `RIM1` identity files, with and without a password.
- `src/compression.rs`, `src/archive.rs`, `src/age_backend.rs`,
  `src/sevenz.rs`: compression levels, the shared backend vocabulary, the age
  backend (standard age files and `RMZ1` containers) and the 7z backend's
  arguments, progress parsing and error reports.
- `src/resume.rs`, `src/checksum.rs`, `src/dry_run.rs`, `src/plan.rs`,
  `src/pack_flow.rs`: resume state, its text format and the source checksum
  it compares, the dry-run preview's exact parts, the decisions of the command
  line, and the order of the steps of a pack.
- `app/`: the `ramz` executable: argument parsing, prompts, progress bars, and
  all file, directory and process work.
- `tests/`: tests of the library on concrete values.

## Laws

Public proof functions state what holds across calls, among them:
`container::law_parse_of_serialize`, `container::law_serialize_of_parse`,
`container_seal::law_password_container_opens`,
`container_seal::law_hybrid_container_opens`,
`container_seal::law_recipient_container_opens`,
`age_backend::law_archive_roundtrip`,
`age_backend::law_hybrid_archive_roundtrip`,
`age_backend::law_recipient_archive_roundtrip`,
`age_backend::law_age_archive_roundtrip`,
`container_open::law_recipient_needs_identity`,
`container_open::law_password_needed`,
`pack_flow::law_delete_only_after_verification`,
`pack_flow::law_pack_sequence`,
`identity::law_plain_identity_roundtrip`,
`identity::law_protected_identity_roundtrip` and
`resume::law_state_text_roundtrip`.
