# zescrow

Verified core of a chain-agnostic escrow whose release conditions are proven
in zero knowledge. The library is written in Verus; every function in `src/`
is proved against its contract.

- `commitment` — the public journal that binds a proof to one settlement:
  encoder, decoder, and the proofs that decoding inverts encoding and that a
  commitment has exactly one journal.
- `program` — settlement rules of the Solana escrow program (create, finish,
  cancel) over its escrow accounts and the balances they move, the journal it
  rebuilds from its own state, and its verifier call.
- `accounts` — the program's escrow accounts, one per live escrow, found by
  the seeds of their address.
- `condition` — hashlock, Ed25519, secp256k1 and N-of-M threshold conditions.
- `asset`, `bignum` — assets and arbitrary-size amounts, with fixed-point
  formatting.
- `interface` — chains, chain configuration and `${VAR}` template expansion.
- `client`, `prover`, `mock_verifier`, `e2e` — client-side conversions, the
  check a proof's journal must pass, the test verifier, and fixtures.
- `outside` — the calls into `sha2`, `ed25519-dalek`, `k256`, `num-bigint`,
  `hex` and std, each with the contract the library relies on.

`app/` holds the I/O: configuration files, environment variables, and the
serde/bincode forms of the library's types.
