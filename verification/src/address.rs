//! Addresses on the source chain.
use soroban_sdk::address_payload::AddressPayload;
use soroban_sdk::xdr::ToXdr;
use soroban_sdk::{BytesN, Env};
use vstd::prelude::*;

use crate::encoding::array_eq;

verus! {

/// An account or a contract on the source chain.
#[derive(Clone, Copy, Debug, Eq)]
pub enum Address {
    /// An account, by its ed25519 public key.
    Account([u8; 32]),
    /// A contract, by the hash that identifies it.
    Contract([u8; 32]),
}

impl PartialEq for Address {
    fn eq(&self, other: &Self) -> (same: bool) {
        match (self, other) {
            (Address::Account(a), Address::Account(b)) => array_eq(a, b),
            (Address::Contract(a), Address::Contract(b)) => array_eq(a, b),
            _ => false,
        }
    }
}

impl vstd::std_specs::cmp::PartialEqSpecImpl for Address {
    open spec fn obeys_eq_spec() -> bool {
        true
    }

    open spec fn eq_spec(&self, other: &Self) -> bool {
        *self == *other
    }
}

impl Address {
    /// The 32 bytes that tell addresses of one kind apart.
    pub open spec fn payload(self) -> Seq<u8> {
        match self {
            Address::Account(key) => key@,
            Address::Contract(hash) => hash@,
        }
    }

    /// The XDR form of the address as a host value: the tag of an address value,
    /// the tag of the kind of address (for an account, followed by the tag of the
    /// kind of key), and the payload.
    pub open spec fn xdr(self) -> Seq<u8> {
        match self {
            Address::Account(key) => seq![0u8, 0, 0, 18, 0, 0, 0, 0, 0, 0, 0, 0] + key@,
            Address::Contract(hash) => seq![0u8, 0, 0, 18, 0, 0, 0, 1] + hash@,
        }
    }

    /// Calls `soroban_sdk::xdr::ToXdr::to_xdr` on the host's own address with this
    /// payload.
    ///
    /// The host writes an address as the address arm of the XDR union `SCVal`: each
    /// union tag takes four bytes, big-endian, and the 32 bytes of the payload follow
    /// as they are.
    #[verifier::external_body]
    pub(crate) fn to_xdr(&self, e: &Env) -> (bytes: Vec<u8>)
        ensures
            bytes@ == self.xdr(),
    {
        let payload = match self {
            Address::Account(key) => {
                AddressPayload::AccountIdPublicKeyEd25519(BytesN::from_array(e, key))
            },
            Address::Contract(hash) => AddressPayload::ContractIdHash(BytesN::from_array(e, hash)),
        };
        soroban_sdk::Address::from_payload(e, payload).to_xdr(e).iter().collect()
    }
}

/// Two byte strings that begin with the XDR of an address begin with the same
/// address and go on alike: no XDR of an address is a prefix of another.
pub proof fn lemma_xdr_prefix_free(a: Address, b: Address, s: Seq<u8>, t: Seq<u8>)
    requires
        a.xdr() + s == b.xdr() + t,
    ensures
        a == b,
        s == t,
{
    let left = a.xdr() + s;
    let right = b.xdr() + t;
    assert(left[7] == a.xdr()[7]);
    assert(right[7] == b.xdr()[7]);
    let n: int = a.xdr().len() as int;
    assert(a.xdr().len() == b.xdr().len());
    assert(a.xdr() =~= left.subrange(0, n));
    assert(b.xdr() =~= right.subrange(0, n));
    assert(s =~= left.subrange(n, left.len() as int));
    assert(t =~= right.subrange(n, right.len() as int));
    assert(a.payload() =~= a.xdr().subrange(n - 32, n));
    assert(b.payload() =~= b.xdr().subrange(n - 32, n));
    match (a, b) {
        (Address::Account(x), Address::Account(y)) => {
            crate::encoding::lemma_array_ext(x, y);
        },
        (Address::Contract(x), Address::Contract(y)) => {
            crate::encoding::lemma_array_ext(x, y);
        },
        _ => {},
    }
}

} // verus!
