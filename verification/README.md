# Assetto Corsa Cloud Server Manager

Manages Assetto Corsa dedicated server instances on remote Linux hosts
over SSH and Docker: connection profiles kept in an encrypted store, host
set-up, content catalogues and uploads, configuration checks and live
host statistics.

## Layout

- `src/` — the library, written in Verus. Its functions carry contracts
  that Verus proves, except the small wrappers that call outside crates
  or std (`rust-ini`, `aes-gcm`, `hex`, `base64`, `tar`/`flate2`,
  `serde_json`, `shellexpand`, the system clock, lowercasing, lossy UTF-8
  decoding and `String::push`): each is marked
  `#[verifier::external_body]`, makes one call, and its contract is
  assumed as the outside crate's source and documentation state it.
  - `text`, `decimal`, `order` — character-sequence primitives, decimal
    numerals and a stable sort, each against a spec function.
  - `manager` — errors, INI configuration checks, host dependencies, and
    the profile store (AES-256-GCM payloads, hex keys, profile list
    operations with their laws).
  - `net` — statistics sampling and parsing, the car and track
    catalogues, SFTP, SSH and Docker commands and state machines.
  - `gui` — the window's state, the upload state machine and the set-up
    steps.
  - `utils` — command builders, sample parsers, file templates.
- `tests/` — tests of the library on concrete values.
- `app/` — the program: the Qt bridge, the SSH/SFTP/Docker I/O and the
  floating-point dashboard figures; it performs the actions that the
  library's state machines (uploads, statistics sampling, set-up) decide.
