//! When each operation of the oracle succeeds, which refusal each other call gets, and what a
//! call that succeeds does, told by the bytes of the call, the state and the host's curve
//! operations alone.
use vstd::arithmetic::power::pow;
use vstd::prelude::*;

use crate::access::{Invocation, Revert};
use crate::bn254::{
    bn254_g1_add, bn254_g1_msm, bn254_pairing_check, g1_negated, g1_point, g2_point, word,
};
use crate::encoding::{
    be_nat, lemma_be_bytes_of_be_nat, lemma_be_nat_concat, lemma_byte_range_values,
};
use crate::layout_laws::law_be_nat_has_the_bytes_as_digits;
use crate::zk_oracle::{
    accepts, decodes, receive_refusal, recorded, rotation_refusal, statement_of, Error, KeyBytes,
    OracleState, Statement, VerifyingKey,
};

verus! {

/// Zeros denote zero, and nothing else does.
proof fn lemma_zero_is_zeros(s: Seq<u8>)
    ensures
        be_nat(s) == 0 <==> forall|i: int| 0 <= i < s.len() ==> #[trigger] s[i] == 0,
    decreases s.len(),
{
    if s.len() > 0 {
        let front = s.drop_last();
        lemma_zero_is_zeros(front);
        if be_nat(s) == 0 {
            assert forall|i: int| 0 <= i < s.len() implies #[trigger] s[i] == 0 by {
                if i < front.len() {
                    assert(front[i] == s[i]);
                }
            }
        }
        if forall|i: int| 0 <= i < s.len() ==> #[trigger] s[i] == 0 {
            assert forall|i: int| 0 <= i < front.len() implies #[trigger] front[i] == 0 by {
                assert(s[i] == 0);
            }
            assert(s[s.len() - 1] == 0);
        }
    }
}

/// The public inputs make a statement exactly where they are 64 bytes of which the first 24 are
/// zero, whatever the others are. The chain id has the next eight bytes as its digits, most
/// significant first, and the payload hash is the last 32 bytes as they are.
pub proof fn law_public_inputs_layout(public_inputs: Seq<u8>)
    ensures
        statement_of(public_inputs) is Some <==> public_inputs.len() == 64 && forall|i: int|
            0 <= i < 24 ==> #[trigger] public_inputs[i] == 0,
        statement_of(public_inputs) matches Some((chain_id, payload_hash)) ==> {
            &&& payload_hash == public_inputs.subrange(32, 64)
            &&& forall|i: int|
                24 <= i < 32 ==> #[trigger] public_inputs[i] == (chain_id as int / pow(
                    256,
                    (31 - i) as nat,
                )) % 256
        },
{
    if public_inputs.len() == 64 {
        let high = public_inputs.subrange(0, 24);
        let low = public_inputs.subrange(24, 32);
        assert(public_inputs.subrange(0, 32) =~= high + low);
        lemma_be_nat_concat(high, low);
        lemma_byte_range_values();
        crate::encoding::lemma_be_nat_bound(low);
        lemma_zero_is_zeros(high);
        law_be_nat_has_the_bytes_as_digits(low);
        assert(word(public_inputs, 0) == be_nat(high) * 0x1_0000_0000_0000_0000 + be_nat(low));
        assert(word(public_inputs, 0) <= u64::MAX <==> be_nat(high) == 0);
        if be_nat(high) == 0 {
            assert forall|i: int| 0 <= i < 24 implies #[trigger] public_inputs[i] == 0 by {
                assert(high[i] == public_inputs[i]);
            }
        }
        if forall|i: int| 0 <= i < 24 ==> #[trigger] public_inputs[i] == 0 {
            assert forall|i: int| 0 <= i < high.len() implies #[trigger] high[i] == 0 by {
                assert(public_inputs[i] == 0);
            }
        }
        if statement_of(public_inputs) is Some {
            let chain_id = statement_of(public_inputs).unwrap().0;
            assert(chain_id == be_nat(low));
            assert forall|i: int| 24 <= i < 32 implies #[trigger] public_inputs[i] == (
            chain_id as int / pow(256, (31 - i) as nat)) % 256 by {
                assert(low[i - 24] == public_inputs[i]);
            }
        }
    }
}

/// A key is seen as the bytes of its points, each under its own name and the `ic` points in
/// order; a statement is seen as its chain and the bytes of its hash.
pub proof fn law_views_keep_everything(key: VerifyingKey, statement: Statement)
    ensures
        key@.alpha == key.alpha@,
        key@.beta == key.beta@,
        key@.gamma == key.gamma@,
        key@.delta == key.delta@,
        key@.ic.len() == key.ic@.len(),
        forall|i: int| 0 <= i < key.ic@.len() ==> #[trigger] key@.ic[i] == key.ic@[i]@,
        statement.key().0 == statement.chain_id,
        statement.key().1 == statement.payload_hash@,
{
}

/// A proof can be checked under a key exactly where it has 256 bytes, the 64, 128 and 64 of
/// which encode points of G1, G2 and G1, and the key holds points throughout.
pub proof fn law_checkable_proofs(key: VerifyingKey, proof: Seq<u8>)
    requires
        key.ic@.len() == 3,
    ensures
        decodes(key@, proof) <==> {
            &&& proof.len() == 256
            &&& g1_point(proof.subrange(0, 64))
            &&& g2_point(proof.subrange(64, 192))
            &&& g1_point(proof.subrange(192, 256))
            &&& g1_point(key.alpha@)
            &&& g2_point(key.beta@)
            &&& g2_point(key.gamma@)
            &&& g2_point(key.delta@)
            &&& g1_point(key.ic@[0]@)
            &&& g1_point(key.ic@[1]@)
            &&& g1_point(key.ic@[2]@)
        },
{
    law_views_keep_everything(key, arbitrary());
}

/// A point of G1 with the same `X` as another and a `Y` that adds up with the other's to zero is
/// its negation.
proof fn lemma_inverse_is_negation(p: Seq<u8>, n: Seq<u8>)
    requires
        g1_point(p),
        n.len() == 64,
        n.subrange(0, 32) == p.subrange(0, 32),
        be_nat(n.subrange(32, 64))
            < 0x30644e72e131a029b85045b68181585d97816a916871ca8d3c208c16d87cfd47int,
        (be_nat(p.subrange(32, 64)) as int + be_nat(n.subrange(32, 64)))
            % 0x30644e72e131a029b85045b68181585d97816a916871ca8d3c208c16d87cfd47int == 0,
    ensures
        n == g1_negated(p),
{
    lemma_be_bytes_of_be_nat(n.subrange(32, 64));
    assert(n =~= n.subrange(0, 32) + n.subrange(32, 64));
}

/// Acceptance is the Groth16 equation and nothing else: a proof `A`, `B`, `C` that can be checked
/// is accepted for two signals exactly where the host's pairing check holds of `-A` with `B`,
/// `alpha` with `beta`, the sum of `ic[0]`, `s0` times `ic[1]` and `s1` times `ic[2]` with
/// `gamma`, and `C` with `delta`. There is no condition on the signals. `neg_a` is any reduced
/// encoding whose `X` is that of `A` and whose `Y` adds up with that of `A` to zero.
pub proof fn law_acceptance_is_the_pairing_equation(
    key: VerifyingKey,
    s0: nat,
    s1: nat,
    proof: Seq<u8>,
    neg_a: Seq<u8>,
)
    requires
        key.ic@.len() == 3,
        decodes(key@, proof),
        neg_a.len() == 64,
        neg_a.subrange(0, 32) == proof.subrange(0, 32),
        be_nat(neg_a.subrange(32, 64))
            < 0x30644e72e131a029b85045b68181585d97816a916871ca8d3c208c16d87cfd47int,
        (be_nat(proof.subrange(32, 64)) as int + be_nat(neg_a.subrange(32, 64)))
            % 0x30644e72e131a029b85045b68181585d97816a916871ca8d3c208c16d87cfd47int == 0,
    ensures
        ({
            let r = 0x30644e72e131a029b85045b68181585d2833e84879b9709143e1f593f0000001nat;
            let signals = bn254_g1_add(
                key.ic@[0]@,
                bn254_g1_msm(seq![key.ic@[1]@, key.ic@[2]@], seq![s0 % r, s1 % r]),
            );
            accepts(key@, s0, s1, proof) <==> bn254_pairing_check(
                seq![neg_a, key.alpha@, signals, proof.subrange(192, 256)],
                seq![proof.subrange(64, 192), key.beta@, key.gamma@, key.delta@],
            )
        }),
{
    let a = proof.subrange(0, 64);
    law_views_keep_everything(key, arbitrary());
    assert(a.subrange(0, 32) =~= proof.subrange(0, 32));
    assert(a.subrange(32, 64) =~= proof.subrange(32, 64));
    lemma_inverse_is_negation(a, neg_a);
}

/// A valid proof goes through for every chain and every payload, and an invalid one for none:
/// with public inputs that name the chain in their first 32 bytes and the payload hash in their
/// last, the submission is recorded where the host's pairing check holds of the eight points,
/// and where it does not, or the proof cannot be checked, it is turned away as an invalid proof,
/// unless the statement is on record already.
pub proof fn law_submissions_go_by_the_pairing_check(
    state: OracleState,
    key: VerifyingKey,
    chain_id: u64,
    payload_hash: Seq<u8>,
    public_inputs: Seq<u8>,
    proof: Seq<u8>,
    neg_a: Seq<u8>,
)
    requires
        state.key == key@,
        key.ic@.len() == 3,
        payload_hash.len() == 32,
        public_inputs.len() == 64,
        be_nat(public_inputs.subrange(0, 32)) == chain_id,
        public_inputs.subrange(32, 64) == payload_hash,
        neg_a.len() == 64,
        neg_a.subrange(0, 32) == proof.subrange(0, 32),
        be_nat(neg_a.subrange(32, 64))
            < 0x30644e72e131a029b85045b68181585d97816a916871ca8d3c208c16d87cfd47int,
        (be_nat(proof.subrange(32, 64)) as int + be_nat(neg_a.subrange(32, 64)))
            % 0x30644e72e131a029b85045b68181585d97816a916871ca8d3c208c16d87cfd47int == 0,
    ensures
        statement_of(public_inputs) == Some((chain_id, payload_hash)),
        ({
            let r = 0x30644e72e131a029b85045b68181585d2833e84879b9709143e1f593f0000001nat;
            let signals = bn254_g1_add(
                key.ic@[0]@,
                bn254_g1_msm(
                    seq![key.ic@[1]@, key.ic@[2]@],
                    seq![chain_id as nat % r, be_nat(payload_hash) % r],
                ),
            );
            let holds = decodes(key@, proof) && bn254_pairing_check(
                seq![neg_a, key.alpha@, signals, proof.subrange(192, 256)],
                seq![proof.subrange(64, 192), key.beta@, key.gamma@, key.delta@],
            );
            let refusal = receive_refusal(state, public_inputs, proof);
            let known = state.proven.contains((chain_id, payload_hash));
            let after = state.with_proven((chain_id, payload_hash));
            &&& holds || known ==> refusal is None && after.proven.contains(
                (chain_id, payload_hash),
            )
            &&& !holds && !known ==> refusal == Some(Error::InvalidProof)
        }),
{
    assert(word(public_inputs, 0) == be_nat(public_inputs.subrange(0, 32)));
    assert(word(public_inputs, 1) == be_nat(public_inputs.subrange(32, 64)));
    if decodes(key@, proof) {
        law_acceptance_is_the_pairing_equation(
            key,
            chain_id as nat,
            be_nat(payload_hash),
            proof,
            neg_a,
        );
    }
}

/// Which refusal a submission gets: public inputs that make no statement are invalid whatever
/// the proof; a statement on record goes through whatever the proof; otherwise the proof decides.
pub proof fn law_refused_submissions(state: OracleState, public_inputs: Seq<u8>, proof: Seq<u8>)
    ensures
        receive_refusal(state, public_inputs, proof) == Some(Error::InvalidPublicInputs) <==> !(
        public_inputs.len() == 64 && forall|i: int| 0 <= i < 24 ==> #[trigger] public_inputs[i]
            == 0),
        receive_refusal(state, public_inputs, proof) != Some(Error::InvalidVerifyingKey),
        statement_of(public_inputs) matches Some(key) && state.proven.contains(key)
            ==> receive_refusal(state, public_inputs, proof) is None,
        statement_of(public_inputs) matches Some(key) && !state.proven.contains(key) && !decodes(
            state.key,
            proof,
        ) ==> receive_refusal(state, public_inputs, proof) == Some(Error::InvalidProof),
{
    law_public_inputs_layout(public_inputs);
}

/// What recording a statement does: the event names it, both ledger entries are extended, the
/// statement is on record, no other is added or dropped, and nothing else is touched.
pub proof fn law_recording_a_statement(
    state: OracleState,
    statement: Statement,
    other: (u64, Seq<u8>),
)
    ensures
        ({
            let done = recorded(statement);
            &&& done.event.chain_id == statement.chain_id
            &&& done.event.payload_hash == statement.payload_hash
            &&& done.proof_ttl.extend_to == 518_400
            &&& done.proof_ttl.threshold == 501_120
            &&& done.instance_ttl.extend_to == 120_960
            &&& done.instance_ttl.threshold == 103_680
        }),
        ({
            let key = (statement.chain_id, statement.payload_hash@);
            let after = state.with_proven(key);
            &&& after.proven.contains(key)
            &&& other != key ==> after.proven.contains(other) == state.proven.contains(other)
            &&& after.owner == state.owner
            &&& after.key == state.key
        }),
{
}

/// The owner can always rotate to a key with three `ic` points, whatever the points are and
/// whatever is on record, and nobody else can; another number of points is invalid. The key is
/// then the one given, and nothing else has changed.
pub proof fn law_owner_rotates_to_any_fitting_key(
    state: OracleState,
    call: Invocation,
    key: KeyBytes,
)
    ensures
        rotation_refusal(state, call, key) is None <==> key.ic.len() == 3 && (
        state.owner matches Some(owner) && call.authorized@.contains(owner)),
        state.owner matches Some(owner) && call.authorized@.contains(owner) && key.ic.len() != 3
            ==> rotation_refusal(state, call, key) == Some(
            Revert::Contract(Error::InvalidVerifyingKey),
        ),
        state.owner matches Some(owner) && !call.authorized@.contains(owner) ==> rotation_refusal(
            state,
            call,
            key,
        ) == Some(Revert::<Error>::NotAuthorized),
        state.owner is None ==> rotation_refusal(state, call, key) == Some(
            Revert::<Error>::OwnerNotSet,
        ),
        ({
            let after = state.with_key(key);
            &&& after.key == key
            &&& after.owner == state.owner
            &&& after.proven == state.proven
        }),
{
}

/// A state is valid exactly where the key has three `ic` points.
pub proof fn law_valid_oracles(state: OracleState)
    ensures
        state.valid() <==> state.key.ic.len() == 3,
{
}

} // verus!
