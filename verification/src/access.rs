//! Who may call what: the invocation as the host sees it, and the owner gate.
use vstd::prelude::*;

use crate::address::Address;

verus! {

/// What the host knows of the invocation under way.
#[derive(Debug)]
pub struct Invocation {
    /// The contract that is being invoked.
    pub contract: Address,
    /// The close time of the ledger, in seconds.
    pub timestamp: u64,
    /// The addresses whose authorization of this invocation the host has confirmed.
    pub authorized: Vec<Address>,
}

/// Why an invocation is rolled back. `E` is the contract's own error type.
#[derive(Debug, PartialEq, Eq)]
pub enum Revert<E> {
    /// The contract refused the call.
    Contract(E),
    /// An address that has to authorize the call did not.
    NotAuthorized,
    /// The contract has no owner, or no longer has one.
    OwnerNotSet,
    /// The contract is paused.
    EnforcedPause,
    /// The contract is not paused.
    ExpectedPause,
}

impl Invocation {
    /// Whether `address` has authorized this invocation.
    pub open spec fn authorizes(self, address: Address) -> bool {
        self.authorized@.contains(address)
    }

    /// Whether `address` has authorized this invocation.
    pub fn is_authorized_by(&self, address: &Address) -> (yes: bool)
        ensures
            yes == self.authorizes(*address),
    {
        let mut i: usize = 0;
        while i < self.authorized.len()
            invariant
                i <= self.authorized@.len(),
                forall|j: int| 0 <= j < i ==> self.authorized@[j] != *address,
            decreases self.authorized@.len() - i,
        {
            if self.authorized[i] == *address {
                assert(self.authorized@[i as int] == *address);
                return true;
            }
            i += 1;
        }
        false
    }
}

/// What the owner gate answers: nothing, where there is an owner and it has authorized
/// the call, and otherwise why the call is rolled back.
pub open spec fn owner_gate<E>(owner: Option<Address>, call: Invocation) -> Option<Revert<E>> {
    match owner {
        None => Some(Revert::OwnerNotSet),
        Some(address) => if call.authorizes(address) {
            None
        } else {
            Some(Revert::NotAuthorized)
        },
    }
}

/// Lets a call pass only with the authorization of the contract's owner.
pub fn enforce_owner_auth<E>(owner: &Option<Address>, call: &Invocation) -> (result: Result<
    (),
    Revert<E>,
>)
    ensures
        match owner_gate::<E>(*owner, *call) {
            None => result is Ok,
            Some(revert) => result == Err::<(), Revert<E>>(revert),
        },
{
    match owner {
        None => Err(Revert::OwnerNotSet),
        Some(address) => if call.is_authorized_by(address) {
            Ok(())
        } else {
            Err(Revert::NotAuthorized)
        },
    }
}

} // verus!
