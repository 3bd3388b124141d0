# intent_bridge

The verified core of a cross-chain intent bridge, and the contracts that run it on their
host.

A taker locks funds on the source chain. A maker fills the order on the destination chain,
has the fill proven by a zero-knowledge proof, and is repaid from the locked funds.

## Layout

- `src/space_object.rs`: the escrow. Creating and claiming orders, fees, pausing, ownership.
- `src/orders.rs`: orders, their content ids, and the book that keeps them.
- `src/zk_oracle.rs`: the oracle. Public inputs, Groth16 verification, the record of proven
  statements.
- `src/bn254.rs`: points of the curve as byte strings, and the curve operations of the host.
- `src/access.rs`, `src/ledger.rs`, `src/address.rs`, `src/host.rs`, `src/encoding.rs`: what
  both share.
- `src/escrow_laws.rs`, `src/oracle_laws.rs`: what holds across calls, stated and proved.
- `app/`: the two contracts on the host. They read storage, require authorization, call the
  library, and carry out the transfers, events and lifetime extensions that it returns.
- `tests/`: both contracts on concrete values, with real tokens and real proofs.

## What is not proved

Keccak-256, the operations on the curve and the XDR form of an address come from the host.
Their contracts are stated where they are called and believed. That a digest identifies its
preimage is not claimed: the laws on ids and hashes speak of the bytes that are hashed.
