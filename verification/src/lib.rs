//! Verified core of a cross-chain intent bridge.
pub mod access;
pub mod address;
pub mod bn254;
pub mod encoding;
pub mod escrow_laws;
pub mod escrow_outcomes;
pub mod host;
pub mod layout_laws;
pub mod ledger;
pub mod oracle_laws;
pub mod oracle_outcomes;
pub mod orders;
pub mod space_object;
pub mod zk_oracle;
