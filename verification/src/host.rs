//! The host functions that only compute.
use soroban_sdk::Env;
use vstd::prelude::*;

verus! {

/// The handle through which a contract reaches its host. It is carried through
/// the library to the functions below and never looked into.
#[verifier::external_type_specification]
#[verifier::external_body]
pub struct ExEnv(soroban_sdk::Env);

/// The Keccak-256 digest of `data`.
pub uninterp spec fn keccak256_digest(data: Seq<u8>) -> Seq<u8>;

/// Calls `soroban_sdk::crypto::Crypto::keccak256`.
///
/// The digest is a function of the bytes alone, named `keccak256_digest`. A host
/// byte string holds at most `u32::MAX` bytes.
#[verifier::external_body]
pub(crate) fn keccak256(e: &Env, data: &Vec<u8>) -> (digest: [u8; 32])
    requires
        data@.len() <= u32::MAX,
    ensures
        digest@ == keccak256_digest(data@),
{
    e.crypto().keccak256(&soroban_sdk::Bytes::from_slice(e, data)).to_array()
}

} // verus!
