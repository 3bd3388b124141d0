//! What holds of the oracle across calls.
use vstd::prelude::*;

use crate::access::{owner_gate, Invocation};
use crate::address::Address;
use crate::bn254::{scalar_modulus, word};
use crate::encoding::{
    be_bytes, be_nat, byte_range, lemma_be_bytes_len, lemma_be_bytes_of_be_nat,
    lemma_be_nat_of_be_bytes,
};
use crate::zk_oracle::{
    accepts, receive_refusal, rotation_refusal, statement_of, Error, KeyBytes, OracleState,
};

verus! {

/// A proof that goes through leaves its statement proven, and no other statement becomes
/// proven by it.
pub proof fn law_accepted_is_proven(
    state: OracleState,
    public_inputs: Seq<u8>,
    proof: Seq<u8>,
    other: (u64, Seq<u8>),
)
    requires
        receive_refusal(state, public_inputs, proof) is None,
    ensures
        statement_of(public_inputs) is Some,
        ({
            let key = statement_of(public_inputs).unwrap();
            let after = state.with_proven(key);
            &&& after.proven.contains(key)
            &&& other != key ==> after.proven.contains(other) == state.proven.contains(other)
        }),
{
}

/// A statement becomes proven only by a proof that the key in use accepts for it.
pub proof fn law_proven_only_by_proof(state: OracleState, public_inputs: Seq<u8>, proof: Seq<u8>)
    requires
        receive_refusal(state, public_inputs, proof) is None,
        !state.proven.contains(statement_of(public_inputs).unwrap()),
    ensures
        accepts(state.key, word(public_inputs, 0), word(public_inputs, 1), proof),
{
}

/// A statement proven once stays proven: with it in the record, every proof for it goes
/// through, also one that verifies nothing, and changes nothing.
pub proof fn law_resubmission_changes_nothing(
    state: OracleState,
    public_inputs: Seq<u8>,
    proof: Seq<u8>,
)
    requires
        statement_of(public_inputs) matches Some(key) && state.proven.contains(key),
    ensures
        receive_refusal(state, public_inputs, proof) is None,
        state.with_proven(statement_of(public_inputs).unwrap()) == state,
{
    assert(state.proven.insert(statement_of(public_inputs).unwrap()) =~= state.proven);
}

/// Rotating the key keeps what is proven, and any statement that is recorded afterwards adds
/// to it.
pub proof fn law_rotation_keeps_statements(
    state: OracleState,
    key: KeyBytes,
    statement: (u64, Seq<u8>),
)
    ensures
        state.with_key(key).proven == state.proven,
        state.proven.subset_of(state.with_key(key).with_proven(statement).proven),
{
}

/// Nobody rotates the key of an oracle whose ownership is renounced, and nobody else that of
/// one which has an owner.
pub proof fn law_rotation_is_owner_only(state: OracleState, call: Invocation, key: KeyBytes)
    ensures
        rotation_refusal(state, call, key) is None ==> owner_gate::<Error>(
            state.owner,
            call,
        ) is None,
        owner_gate::<Error>(state.owner, call) is None <==> (state.owner matches Some(owner)
            && call.authorizes(owner)),
{
}

/// The payload hash counts modulo the order of the scalar field: hashes that are congruent
/// are accepted with the same proofs.
pub proof fn law_payload_counts_modulo_order(
    key: KeyBytes,
    chain_id: nat,
    payload: nat,
    congruent: nat,
    proof: Seq<u8>,
)
    requires
        payload % scalar_modulus() == congruent % scalar_modulus(),
    ensures
        accepts(key, chain_id, payload, proof) == accepts(key, chain_id, congruent, proof),
{
}

/// The state with no statement on record but `key`, if that is recorded.
pub open spec fn only_statement(state: OracleState, key: (u64, Seq<u8>)) -> OracleState {
    OracleState {
        proven: if state.proven.contains(key) {
            Set::empty().insert(key)
        } else {
            Set::empty()
        },
        ..state
    }
}

/// The statement at hand decides: with the others left out, a proof for it is turned away for
/// the same reasons, and the statement ends up on record in the same cases.
pub proof fn law_one_statement_decides(state: OracleState, public_inputs: Seq<u8>, proof: Seq<u8>)
    requires
        statement_of(public_inputs) is Some,
    ensures
        ({
            let key = statement_of(public_inputs).unwrap();
            let part = only_statement(state, key);
            &&& receive_refusal(part, public_inputs, proof) == receive_refusal(
                state,
                public_inputs,
                proof,
            )
            &&& part.proven.contains(key) == state.proven.contains(key)
        }),
{
}

/// The public inputs that make a statement about `chain_id` and `payload_hash`.
pub open spec fn inputs_for(chain_id: u64, payload_hash: Seq<u8>) -> Seq<u8> {
    be_bytes(chain_id as nat, 32) + payload_hash
}

/// Every statement can be made, in exactly one way.
pub proof fn law_statements_and_inputs_correspond(
    chain_id: u64,
    payload_hash: Seq<u8>,
    public_inputs: Seq<u8>,
)
    requires
        payload_hash.len() == 32,
    ensures
        statement_of(inputs_for(chain_id, payload_hash)) == Some((chain_id, payload_hash)),
        statement_of(public_inputs) == Some((chain_id, payload_hash)) ==> public_inputs
            == inputs_for(chain_id, payload_hash),
{
    let made = inputs_for(chain_id, payload_hash);
    lemma_be_bytes_len(chain_id as nat, 32);
    reveal_with_fuel(byte_range, 33);
    lemma_be_nat_of_be_bytes(chain_id as nat, 32);
    assert(made.subrange(0, 32) =~= be_bytes(chain_id as nat, 32));
    assert(made.subrange(32, 64) =~= payload_hash);
    if statement_of(public_inputs) == Some((chain_id, payload_hash)) {
        let first = public_inputs.subrange(0, 32);
        lemma_be_bytes_of_be_nat(first);
        assert(be_nat(first) == chain_id);
        assert(public_inputs =~= first + public_inputs.subrange(32, 64));
    }
}

/// A call of the oracle, or a change of its owner by the host.
pub enum OracleStep {
    Receive { public_inputs: Seq<u8>, proof: Seq<u8> },
    Rotate { call: Invocation, key: KeyBytes },
    Owner { owner: Option<Address> },
}

/// The state after one step. A refused call leaves the state as it is.
pub open spec fn after_step(state: OracleState, step: OracleStep) -> OracleState {
    match step {
        OracleStep::Receive { public_inputs, proof } => if receive_refusal(
            state,
            public_inputs,
            proof,
        ) is None {
            state.with_proven(statement_of(public_inputs).unwrap())
        } else {
            state
        },
        OracleStep::Rotate { call, key } => if rotation_refusal(state, call, key) is None {
            state.with_key(key)
        } else {
            state
        },
        OracleStep::Owner { owner } => OracleState { owner, ..state },
    }
}

/// The state after a list of steps.
pub open spec fn after_steps(state: OracleState, steps: Seq<OracleStep>) -> OracleState
    decreases steps.len(),
{
    if steps.len() == 0 {
        state
    } else {
        after_step(after_steps(state, steps.drop_last()), steps.last())
    }
}

/// Whatever calls are made, in whatever order: the state stays valid, and what is proven stays
/// proven.
pub proof fn law_steps_keep_statements(state: OracleState, steps: Seq<OracleStep>)
    requires
        state.valid(),
    ensures
        after_steps(state, steps).valid(),
        state.proven.subset_of(after_steps(state, steps).proven),
    decreases steps.len(),
{
    if steps.len() > 0 {
        law_steps_keep_statements(state, steps.drop_last());
    }
}

/// Whether the step at `i` submits a proof of `statement` that the key in use accepts.
pub open spec fn proves(
    state: OracleState,
    steps: Seq<OracleStep>,
    i: int,
    statement: (u64, Seq<u8>),
) -> bool {
    steps[i] matches OracleStep::Receive { public_inputs, proof } && statement_of(public_inputs)
        == Some(statement) && accepts(
        after_steps(state, steps.take(i)).key,
        word(public_inputs, 0),
        word(public_inputs, 1),
        proof,
    )
}

/// A statement is proven exactly where it was from the start, or where some call has submitted
/// a proof of it that the key then in use accepted.
pub proof fn law_proven_iff_a_proof_was_accepted(
    state: OracleState,
    steps: Seq<OracleStep>,
    statement: (u64, Seq<u8>),
)
    ensures
        after_steps(state, steps).proven.contains(statement) <==> {
            ||| state.proven.contains(statement)
            ||| exists|i: int|
                0 <= i < steps.len() && #[trigger] proves(state, steps, i, statement)
        },
    decreases steps.len(),
{
    if steps.len() > 0 {
        let front = steps.drop_last();
        let last = steps.len() - 1;
        law_proven_iff_a_proof_was_accepted(state, front, statement);
        assert(steps.take(last) =~= front);
        assert forall|j: int| 0 <= j < last implies proves(state, front, j, statement) == proves(
            state,
            steps,
            j,
            statement,
        ) by {
            assert(front.take(j) =~= steps.take(j));
        }
        if exists|i: int| 0 <= i < front.len() && #[trigger] proves(state, front, i, statement) {
            let i = choose|i: int|
                0 <= i < front.len() && #[trigger] proves(state, front, i, statement);
            assert(proves(state, steps, i, statement));
        }
        if exists|i: int| 0 <= i < steps.len() && #[trigger] proves(state, steps, i, statement) {
            let i = choose|i: int|
                0 <= i < steps.len() && #[trigger] proves(state, steps, i, statement);
            assert(i < last ==> proves(state, front, i, statement));
        }
        let before = after_steps(state, front);
        let after = after_steps(state, steps);
        assert(before.proven.contains(statement) ==> after.proven.contains(statement));
        assert(after.proven.contains(statement) && !before.proven.contains(statement) ==> proves(
            state,
            steps,
            last,
            statement,
        ));
        assert(proves(state, steps, last, statement) ==> after.proven.contains(statement));
    }
}

/// Whether the step at `i` rotates the key.
pub open spec fn rotates(state: OracleState, steps: Seq<OracleStep>, i: int) -> bool {
    steps[i] matches OracleStep::Rotate { call, key } && rotation_refusal(
        after_steps(state, steps.take(i)),
        call,
        key,
    ) is None
}

/// The key in use is the one that was set last, and the first one where none was set since.
pub proof fn law_key_is_last_set(state: OracleState, steps: Seq<OracleStep>)
    ensures
        ({
            let key = after_steps(state, steps).key;
            ||| key == state.key && forall|j: int|
                0 <= j < steps.len() ==> !#[trigger] rotates(state, steps, j)
            ||| exists|i: int|
                0 <= i < steps.len() && #[trigger] rotates(state, steps, i) && steps[i]->Rotate_key
                    == key && forall|j: int|
                    i < j < steps.len() ==> !#[trigger] rotates(state, steps, j)
        }),
    decreases steps.len(),
{
    if steps.len() > 0 {
        let front = steps.drop_last();
        let last = steps.len() - 1;
        law_key_is_last_set(state, front);
        assert(steps.take(last) =~= front);
        assert forall|j: int| 0 <= j < last implies rotates(state, front, j) == rotates(
            state,
            steps,
            j,
        ) by {
            assert(front.take(j) =~= steps.take(j));
        }
        if !rotates(state, steps, last) {
            assert(after_steps(state, steps).key == after_steps(state, front).key);
            if exists|i: int|
                0 <= i < front.len() && #[trigger] rotates(state, front, i) && front[i]->Rotate_key
                    == after_steps(state, front).key && forall|j: int|
                    i < j < front.len() ==> !#[trigger] rotates(state, front, j) {
                let i = choose|i: int|
                    0 <= i < front.len() && #[trigger] rotates(state, front, i)
                        && front[i]->Rotate_key == after_steps(state, front).key && forall|j: int|
                        i < j < front.len() ==> !#[trigger] rotates(state, front, j);
                assert(rotates(state, steps, i));
            }
        }
    }
}

} // verus!
