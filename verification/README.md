# mainstay

Verified logic of two Soroban contracts for asset maintenance records.

- `src/registry.rs`: the asset registry (registration with per-owner
  duplicate detection, transfer, metadata updates, deregistration, the
  timelocked lending-contract handover, collateral locks).
- `src/lifecycle.rs`: maintenance records kept as a hash chain per asset,
  collateral scores raised by maintenance and lowered by decay, credential
  grace periods, and timelocked history pruning.
- `src/digest.rs`: SHA-256 and XDR encoding, done by the Soroban host.
- `src/search.rs`, `src/sdk.rs`: filtered search over registered assets and
  a small client facade.
- `src/laws.rs`: properties that span several operations, proved.
- `app/`: the host side: authorization, ledger time, storage lifetimes,
  events and cross-contract calls, around the verified library.

Every function in `src/` carries a contract checked by Verus; the only
trusted items are the host wrappers in `src/digest.rs`.
