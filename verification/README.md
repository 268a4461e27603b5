# shield_cli

The client side of EnvShield, a zero-knowledge secrets tool: secrets are
encrypted on the device (XChaCha20-Poly1305 under a random data key, wrapped to
each device with age/X25519, manifests signed with Ed25519), kept in an
encrypted local cache, and injected into child processes without `.env` files.

## Layout

- `src/` — the library, verified with Verus.
  - `sorted_map.rs`: a string-keyed map kept in ascending UTF-8 byte order.
  - `json.rs`: the exact bytes of the signed manifest and of a secret's
    associated data.
  - `codec.rs`, `primitives.rs`: the calls into base64, hex, serde_json,
    zeroize, rand, sha2, chacha20poly1305, ed25519-dalek, age, bech32 and
    x25519-dalek, each with the contract the library relies on.
  - `state.rs`: the local state, its workspaces and environments, the local
    cache key and the encrypted local cache.
  - `crypto.rs`: device keys, snapshot encryption, manifest signing and
    checking, snapshot decryption.
  - `workflow.rs`: the decisions and state changes of the commands (login,
    registration, set, push, pull, status, run).
  - `api.rs`, `runner.rs`, `text.rs`, `error.rs`: messages, endpoint paths,
    command splitting, small text operations and error messages.
- `tests/` — tests of the library through its public API.
- `app/` — the `shield` program: command line, HTTP, prompts, files and child
  processes.
