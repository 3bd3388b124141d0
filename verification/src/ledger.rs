//! How long ledger entries are kept.
use vstd::prelude::*;

verus! {

/// Ledgers per day at a close rate of about five seconds.
pub const DAY_IN_LEDGERS: u32 = 17_280;

/// How far to extend the lifetime of a contract's instance entry.
pub const INSTANCE_TTL_EXTEND: u32 = 7 * DAY_IN_LEDGERS;

/// The remaining lifetime below which the instance entry is extended.
pub const INSTANCE_TTL_THRESHOLD: u32 = INSTANCE_TTL_EXTEND - DAY_IN_LEDGERS;

/// An extension of a ledger entry's lifetime: where fewer than `threshold` ledgers are
/// left, the entry is kept for `extend_to` ledgers from now.
#[derive(Clone, Copy, Debug, PartialEq, Eq)]
pub struct TtlExtension {
    pub threshold: u32,
    pub extend_to: u32,
}

/// The extension of the instance entry.
pub open spec fn instance_ttl_spec() -> TtlExtension {
    TtlExtension { threshold: INSTANCE_TTL_THRESHOLD, extend_to: INSTANCE_TTL_EXTEND }
}

/// The extension of the instance entry.
pub fn instance_ttl() -> (ttl: TtlExtension)
    ensures
        ttl == instance_ttl_spec(),
{
    TtlExtension { threshold: INSTANCE_TTL_THRESHOLD, extend_to: INSTANCE_TTL_EXTEND }
}

} // verus!
