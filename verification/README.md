# mini_blockchain

A minimal blockchain — SHA-256 linked blocks with Proof-of-Work, a Merkle
commitment to each block's transactions, Ed25519 transaction and block
signatures, balance tracking with a pending mempool, password-sealed wallets
(AES-256-GCM), and a peer-to-peer node — whose core is verified with Verus.

## Layout

- `src/` — the verified library.
  - `encoding` — lowercase hex and decimal text, hex decoding.
  - `types` — `Hash` and `PublicKey`, hex key parsing.
  - `crypto::primitives` — the calls into `sha2`, `ed25519-dalek`, `aes-gcm`
    and `rand`, each with the contract the library relies on.
  - `crypto::transaction`, `crypto::wallet` — transactions, signing, sealed wallets.
  - `chain::merkle`, `chain::block`, `chain::blockchain` — Merkle roots, block
    hashing and mining, validation, balances and the mempool.
  - `node::sync`, `node::command` — the node's decisions: gossiped blocks,
    the longest-chain rule, per-connection chain requests, console commands.
  - `api::error` — API errors and their status codes.
  - `error`, `config` — error types with their messages; default settings.
- `app/` — the programs: the command-line wallet and miner, the HTTP API (run
  as `api`), the libp2p node (run as `node`), JSON files and wire formats.
- `tests/` — tests of the library.
