# tinywallet

Multi-chain wallet primitives, verified with Verus.

Everything in the library is a deterministic function of its arguments:
Bitcoin and Tron address validation, largest-first coin selection, P2WPKH
transfer planning and signing, Tron transaction verification and signing,
BIP-32 key derivation (with the P2WPKH address of a Bitcoin key), and the arithmetic behind balance queries.

- `src/` is the verified library. Calls into `bitcoin`, `sha2` and `bs58` go
  through small trusted wrappers whose contracts name what those crates
  compute; everything around them is proved. A signed Bitcoin transfer, for
  instance, is stated to be the consensus serialization of the planned
  transaction (version 2, lock time 0, RBF sequence on every input) whose
  witnesses sign each input's BIP-143 sighash, which commits to the value of
  the coin spent.
- `tests/` exercises the library on concrete values.
- `app/` holds the host-side glue: error types with `Display`, and JSON
  decoding of Esplora balance responses into the library's plain values.
