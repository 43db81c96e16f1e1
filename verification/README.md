# design_extractor

The logic of a local-first desktop tool that turns screenshots into a
reviewed, provider-neutral `DESIGN.md`, written in Verus and verified.

- `src/` is the verified library: the design-spec model and its validation,
  the Markdown export, the prompts and the analysis and refinement decisions,
  the provider request bodies and the reading of provider replies, the
  credential bookkeeping, and the storage rules (image checks, paths,
  migrations, rules that depend on a removed screenshot). Calls into outside
  crates (serde_json, uuid, base64, sha2, image, url, keyring, chrono) go
  through small trusted wrappers. Their contracts say what those crates
  compute; where the answer depends on the machine (the keyring, the clock,
  a random identifier) they promise nothing of it, and verified functions
  state what the library does with whatever comes back.
- `app/` is the unverified shell: SQLite and file I/O, HTTP calls to the
  providers, the async loops that feed replies back into the verified
  decision functions, and the serde copies of the library's types.
- `tests/` runs the library on concrete values.
