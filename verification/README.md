# mmp

A personal password store. Passwords are kept under tags with optional
metadata (date, text, url) in a YAML file, which can be sealed with a key
(SHA-256 of the key, XChaCha20-Poly1305 through orion) and opened again.

Layout:

- `src/` — the verified library.
  - `store.rs`: the store (ordered entries with distinct tags), its
    operations and their laws. The store is a vector of (tag, entry) pairs
    with pairwise distinct tags rather than a `HashMap<String, _>`: vstd's
    specification of `HashMap` gives nothing provable for `String` keys, while
    over the vector every operation and law is proved. The program reads the
    YAML map into it and writes it back as a map.
  - `pattern.rs`: tag patterns through the `regex` crate.
  - `crypto.rs`: key derivation, sealing and opening, UTF-8 decoding.
  - `fresh.rs`: the clock and generated passwords.
  - `paths.rs`: store-file paths.
  - `output.rs`: effects and how entries are shown.
  - `args.rs`: the command line as plain values.
  - `session.rs`: `App::run`, which says for each command what to do next
    given the inputs gathered so far.
- `app/` — the program: clap, serde_yaml, files, terminal and clipboard; it
  gathers what `App::run` asks for and performs the effects it returns.
- `tests/` — tests of the library.
