//! Groth16 (BN254) proof oracle of the bridge.
//!
//! [`ZkOracle::receive_proof`] verifies a Groth16 proof against a verifying key and records
//! the proven `(chain_id, payload_hash)` statement. Others, such as the escrow when an order
//! is claimed, then gate actions on [`ZkOracle::is_proven`] and need not run the
//! cryptography again.
//!
//! - `proof` is `A`, `B`, `C`: a point of G1, one of G2 and one of G1, 256 bytes.
//! - `public_inputs` is the two public signals `chain_id` and `payload_hash`, each a 32-byte
//!   big-endian number, 64 bytes. `chain_id` must fit in a `u64`; `payload_hash` is taken
//!   modulo the order of the scalar field, so the circuit must expose the same reduced
//!   value.
//!
//! Submitting a proof takes no permission: a valid proof is its own authorization. Only the
//! owner can rotate the verifying key; until ownership is renounced, consumers trust the
//! owner not to install a key that accepts forged proofs. That an action which a proof
//! unlocks is done once is for the consumer to see to: recording a proven fact is idempotent
//! by nature.
use soroban_sdk::Env;
use vstd::prelude::*;

use crate::access::{enforce_owner_auth, owner_gate, Invocation, Revert};
use crate::address::Address;
use crate::bn254::{
    bn254_g1_add, bn254_g1_msm, bn254_pairing_check, encodes_g1, encodes_g2, g1_add, g1_msm,
    g1_neg, g1_negated, g1_point, g2_point, lemma_negated_is_point, pairing_check, read_word,
    scalar_modulus, scalars_of, views, word,
};
use crate::encoding::{array_eq, be_nat, copy_array};
use crate::ledger::{instance_ttl, instance_ttl_spec, TtlExtension, DAY_IN_LEDGERS};

verus! {

/// Serialized size of a point of G1, in bytes.
pub const G1_LEN: usize = 64;

/// Serialized size of a point of G2, in bytes.
pub const G2_LEN: usize = 128;

/// Serialized size of a public signal, in bytes.
pub const SIGNAL_LEN: usize = 32;

/// Number of public signals: `chain_id` and `payload_hash`.
pub const NUM_SIGNALS: usize = 2;

/// Length of `public_inputs`, in bytes.
pub const PUBLIC_INPUTS_LEN: usize = NUM_SIGNALS * SIGNAL_LEN;

/// Length of `proof`, in bytes.
pub const PROOF_LEN: usize = G1_LEN + G2_LEN + G1_LEN;

/// Required length of the verifying key's `ic`: one point per public signal, plus the
/// constant term.
pub const IC_LEN: usize = NUM_SIGNALS + 1;

/// How far to extend the lifetime of a recorded proof when it is first stored.
pub const PROOF_TTL_EXTEND: u32 = 30 * DAY_IN_LEDGERS;

/// The remaining lifetime below which a recorded proof is extended.
pub const PROOF_TTL_THRESHOLD: u32 = PROOF_TTL_EXTEND - DAY_IN_LEDGERS;

/// Why the oracle refuses a call.
#[derive(Clone, Copy, Debug, PartialEq, Eq, PartialOrd, Ord, Structural)]
pub enum Error {
    /// `public_inputs` was not `chain_id` and `payload_hash` (64 bytes), or `chain_id` did
    /// not fit in a `u64`.
    InvalidPublicInputs,
    /// `proof` was not `A`, `B`, `C` (256 bytes), a point of it or of the key is none, or the
    /// pairing check failed.
    InvalidProof,
    /// The verifying key's `ic` length did not match the number of signals.
    InvalidVerifyingKey,
}

impl Error {
    /// The number by which the error is known on the ledger.
    pub open spec fn number(self) -> u32 {
        match self {
            Error::InvalidPublicInputs => 1,
            Error::InvalidProof => 2,
            Error::InvalidVerifyingKey => 3,
        }
    }

    /// The number by which the error is known on the ledger.
    pub fn code(&self) -> (code: u32)
        ensures
            code == self.number(),
    {
        match self {
            Error::InvalidPublicInputs => 1,
            Error::InvalidProof => 2,
            Error::InvalidVerifyingKey => 3,
        }
    }
}

/// Groth16 verifying key over BN254, in the EIP-197 byte encoding.
///
/// `ic` holds one point of G1 per public signal plus the constant term, so its length is
/// [`IC_LEN`].
#[derive(Debug, PartialEq, Eq)]
pub struct VerifyingKey {
    /// `alpha` in G1.
    pub alpha: [u8; 64],
    /// `beta` in G2.
    pub beta: [u8; 128],
    /// `gamma` in G2.
    pub gamma: [u8; 128],
    /// `delta` in G2.
    pub delta: [u8; 128],
    /// The constant term followed by one point of G1 per signal.
    pub ic: Vec<[u8; 64]>,
}

impl Clone for VerifyingKey {
    fn clone(&self) -> (copy: VerifyingKey)
        ensures
            copy@ == self@,
    {
        let mut ic: Vec<[u8; 64]> = Vec::new();
        let mut i: usize = 0;
        while i < self.ic.len()
            invariant
                i <= self.ic@.len(),
                ic@ == self.ic@.take(i as int),
            decreases self.ic@.len() - i,
        {
            ic.push(self.ic[i]);
            i += 1;
        }
        VerifyingKey { alpha: self.alpha, beta: self.beta, gamma: self.gamma, delta: self.delta, ic }
    }
}

/// A verifying key as the byte strings in it.
#[verifier::ext_equal]
pub struct KeyBytes {
    pub alpha: Seq<u8>,
    pub beta: Seq<u8>,
    pub gamma: Seq<u8>,
    pub delta: Seq<u8>,
    pub ic: Seq<Seq<u8>>,
}

impl View for VerifyingKey {
    type V = KeyBytes;

    open spec fn view(&self) -> KeyBytes {
        KeyBytes {
            alpha: self.alpha@,
            beta: self.beta@,
            gamma: self.gamma@,
            delta: self.delta@,
            ic: views(self.ic@),
        }
    }
}

/// Emitted once, when a `(chain_id, payload_hash)` statement is first proven.
#[derive(Clone, Copy, Debug, PartialEq, Eq)]
pub struct ProofVerified {
    pub chain_id: u64,
    pub payload_hash: [u8; 32],
}

/// Emitted when the owner rotates the verifying key.
#[derive(Clone, Copy, Debug, PartialEq, Eq)]
pub struct VerifyingKeyUpdated {}

/// The statement that a payload hash stands for something done on a chain.
#[derive(Clone, Copy, Debug, PartialEq, Eq)]
pub struct Statement {
    pub chain_id: u64,
    pub payload_hash: [u8; 32],
}

impl Statement {
    /// The chain and the bytes of the hash.
    pub open spec fn key(self) -> (u64, Seq<u8>) {
        (self.chain_id, self.payload_hash@)
    }
}

/// A new oracle, and what deploying it amounts to.
pub struct Deployed {
    pub oracle: ZkOracle,
    pub instance_ttl: TtlExtension,
}

/// What recording a proven statement amounts to.
#[derive(Clone, Copy, Debug, PartialEq, Eq)]
pub struct Recorded {
    pub event: ProofVerified,
    pub proof_ttl: TtlExtension,
    pub instance_ttl: TtlExtension,
}

/// What rotating the verifying key amounts to.
#[derive(Clone, Copy, Debug, PartialEq, Eq)]
pub struct Rotated {
    pub event: VerifyingKeyUpdated,
    pub instance_ttl: TtlExtension,
}

/// The oracle's state: its owner, its verifying key, and the proven statements.
#[verifier::ext_equal]
pub struct OracleState {
    pub owner: Option<Address>,
    pub key: KeyBytes,
    pub proven: Set<(u64, Seq<u8>)>,
}

impl OracleState {
    /// What holds of every state that the operations below lead to: the key has as many
    /// `ic` points as the signals need.
    pub open spec fn valid(self) -> bool {
        self.key.ic.len() == IC_LEN
    }

    /// The state after the key was rotated.
    pub open spec fn with_key(self, key: KeyBytes) -> OracleState {
        OracleState { key, ..self }
    }

    /// The state after a statement was recorded.
    pub open spec fn with_proven(self, key: (u64, Seq<u8>)) -> OracleState {
        OracleState { proven: self.proven.insert(key), ..self }
    }
}

/// The statement that the public inputs make: where they are two 32-byte signals of which
/// the first fits in a `u64`, that number and the bytes of the second.
pub open spec fn statement_of(public_inputs: Seq<u8>) -> Option<(u64, Seq<u8>)> {
    if public_inputs.len() == PUBLIC_INPUTS_LEN && word(public_inputs, 0) <= u64::MAX {
        Some((word(public_inputs, 0) as u64, public_inputs.subrange(32, 64)))
    } else {
        None
    }
}

/// The point `A` of a proof.
pub open spec fn proof_a(proof: Seq<u8>) -> Seq<u8> {
    proof.subrange(0, 64)
}

/// The point `B` of a proof.
pub open spec fn proof_b(proof: Seq<u8>) -> Seq<u8> {
    proof.subrange(64, 192)
}

/// The point `C` of a proof.
pub open spec fn proof_c(proof: Seq<u8>) -> Seq<u8> {
    proof.subrange(192, 256)
}

/// Whether `proof` has the length of a proof, and it and the key hold points throughout.
pub open spec fn decodes(key: KeyBytes, proof: Seq<u8>) -> bool {
    &&& proof.len() == PROOF_LEN
    &&& g1_point(proof_a(proof))
    &&& g2_point(proof_b(proof))
    &&& g1_point(proof_c(proof))
    &&& g1_point(key.alpha)
    &&& g2_point(key.beta)
    &&& g2_point(key.gamma)
    &&& g2_point(key.delta)
    &&& g1_point(key.ic[0])
    &&& g1_point(key.ic[1])
    &&& g1_point(key.ic[2])
}

/// The point that commits to the public signals: `ic[0] + s0 * ic[1] + s1 * ic[2]`, with the
/// signals reduced.
pub open spec fn signal_point(key: KeyBytes, s0: nat, s1: nat) -> Seq<u8> {
    bn254_g1_add(
        key.ic[0],
        bn254_g1_msm(
            seq![key.ic[1], key.ic[2]],
            seq![s0 % scalar_modulus(), s1 % scalar_modulus()],
        ),
    )
}

/// The pairing equation of Groth16: the product of the pairings of `-A` with `B`, `alpha`
/// with `beta`, the point of the signals with `gamma` and `C` with `delta` is one.
pub open spec fn equation_holds(key: KeyBytes, signals: Seq<u8>, proof: Seq<u8>) -> bool {
    bn254_pairing_check(
        seq![g1_negated(proof_a(proof)), key.alpha, signals, proof_c(proof)],
        seq![proof_b(proof), key.beta, key.gamma, key.delta],
    )
}

/// Whether the key accepts `proof` for the signals `s0` and `s1`.
pub open spec fn accepts(key: KeyBytes, s0: nat, s1: nat, proof: Seq<u8>) -> bool {
    decodes(key, proof) && equation_holds(key, signal_point(key, s0, s1), proof)
}

/// Why a proof is turned away, if it is: the public inputs make no statement, or the
/// statement is not proven yet and the key does not accept the proof for it.
pub open spec fn receive_refusal(
    state: OracleState,
    public_inputs: Seq<u8>,
    proof: Seq<u8>,
) -> Option<Error> {
    match statement_of(public_inputs) {
        None => Some(Error::InvalidPublicInputs),
        Some(key) => if state.proven.contains(key) || accepts(
            state.key,
            word(public_inputs, 0),
            word(public_inputs, 1),
            proof,
        ) {
            None
        } else {
            Some(Error::InvalidProof)
        },
    }
}

/// Why the key cannot be replaced by `key`, if it cannot.
pub open spec fn rotation_refusal(state: OracleState, call: Invocation, key: KeyBytes) -> Option<
    Revert<Error>,
> {
    match owner_gate::<Error>(state.owner, call) {
        Some(revert) => Some(revert),
        None => if key.ic.len() != IC_LEN {
            Some(Revert::Contract(Error::InvalidVerifyingKey))
        } else {
            None
        },
    }
}

/// What recording `statement` amounts to.
pub open spec fn recorded(statement: Statement) -> Recorded {
    Recorded {
        event: ProofVerified {
            chain_id: statement.chain_id,
            payload_hash: statement.payload_hash,
        },
        proof_ttl: TtlExtension { threshold: PROOF_TTL_THRESHOLD, extend_to: PROOF_TTL_EXTEND },
        instance_ttl: instance_ttl_spec(),
    }
}

/// Reads the statement that the public inputs make.
pub fn parse_public_inputs(public_inputs: &[u8]) -> (result: Result<Statement, Error>)
    ensures
        match statement_of(public_inputs@) {
            Some(key) => result matches Ok(statement) && statement.key() == key,
            None => result == Err::<Statement, Error>(Error::InvalidPublicInputs),
        },
{
    if public_inputs.len() != PUBLIC_INPUTS_LEN {
        return Err(Error::InvalidPublicInputs);
    }
    let (high, low): (u128, u128) = read_word(public_inputs, 0);
    if high != 0 || low > u64::MAX as u128 {
        return Err(Error::InvalidPublicInputs);
    }
    Ok(Statement { chain_id: low as u64, payload_hash: copy_array::<32>(public_inputs, SIGNAL_LEN) })
}

/// The points to pair in the Groth16 equation, given the negated `A` and the point of the
/// signals.
pub fn pairing_terms(
    key: &VerifyingKey,
    neg_a: [u8; 64],
    b: [u8; 128],
    c: [u8; 64],
    signals: [u8; 64],
) -> (terms: (Vec<[u8; 64]>, Vec<[u8; 128]>))
    ensures
        terms.0@ == seq![neg_a, key.alpha, signals, c],
        terms.1@ == seq![b, key.beta, key.gamma, key.delta],
{
    let points: Vec<[u8; 64]> = vec![neg_a, key.alpha, signals, c];
    let twisted: Vec<[u8; 128]> = vec![b, key.beta, key.gamma, key.delta];
    (points, twisted)
}

/// The oracle's state on the ledger, or as much of it as one invocation touches.
pub struct ZkOracle {
    owner: Option<Address>,
    key: VerifyingKey,
    proven: Vec<Statement>,
}

/// The keys of a list of statements.
pub open spec fn statement_keys(statements: Seq<Statement>) -> Set<(u64, Seq<u8>)> {
    statements.map_values(|s: Statement| s.key()).to_set()
}

impl View for ZkOracle {
    type V = OracleState;

    closed spec fn view(&self) -> OracleState {
        OracleState {
            owner: self.owner,
            key: self.key@,
            proven: statement_keys(self.proven@),
        }
    }
}

impl ZkOracle {
    /// The verifying key has as many `ic` points as the signals need.
    pub open spec fn wf(self) -> bool {
        self@.valid()
    }

    /// Initializes the oracle with its `owner` and the Groth16 verifying `key`. The key is
    /// written to the instance entry, whose lifetime is extended with it.
    pub fn __constructor(owner: Address, key: VerifyingKey) -> (result: Result<Deployed, Error>)
        ensures
            key@.ic.len() != IC_LEN ==> result matches Err(Error::InvalidVerifyingKey),
            key@.ic.len() == IC_LEN ==> result is Ok,
            match result {
                Ok(done) => {
                    &&& done.oracle.wf()
                    &&& done.oracle@ == (OracleState {
                        owner: Some(owner),
                        key: key@,
                        proven: Set::empty(),
                    })
                    &&& done.instance_ttl == instance_ttl_spec()
                },
                Err(_) => true,
            },
    {
        if key.ic.len() != IC_LEN {
            return Err(Error::InvalidVerifyingKey);
        }
        let oracle: ZkOracle = ZkOracle { owner: Some(owner), key, proven: Vec::new() };
        assert(oracle@.proven =~= Set::empty());
        Ok(Deployed { oracle, instance_ttl: instance_ttl() })
    }

    /// The oracle with what one invocation reads from the ledger: the instance data, and the
    /// statement at hand, if it is recorded. A key that no oracle has stored is rejected.
    pub fn from_ledger(
        owner: Option<Address>,
        key: VerifyingKey,
        proven: Option<Statement>,
    ) -> (loaded: Option<ZkOracle>)
        ensures
            loaded is Some <==> key@.ic.len() == IC_LEN,
            loaded matches Some(oracle) ==> oracle.wf() && oracle@ == (OracleState {
                owner,
                key: key@,
                proven: match proven {
                    Some(statement) => Set::empty().insert(statement.key()),
                    None => Set::empty(),
                },
            }),
    {
        if key.ic.len() != IC_LEN {
            return None;
        }
        let mut statements: Vec<Statement> = Vec::new();
        assert(statement_keys(statements@) =~= Set::empty());
        if let Some(statement) = proven {
            proof {
                lemma_push_statement(statements@, statement);
            }
            statements.push(statement);
        }
        Some(ZkOracle { owner, key, proven: statements })
    }

    /// The contract's owner, or none if ownership was renounced.
    pub fn get_owner(&self) -> (owner: Option<Address>)
        ensures
            owner == self@.owner,
    {
        self.owner
    }

    /// Verifies a Groth16 proof and records its `(chain_id, payload_hash)` statement.
    ///
    /// `public_inputs` and `proof` are laid out as the module's description says. Where the
    /// key accepts the proof, the statement is recorded, so that
    /// [`is_proven`](Self::is_proven) returns `true`, and the event to emit is returned.
    ///
    /// Anyone may submit. The call is idempotent: for a statement that is proven already
    /// nothing is verified, recorded or emitted, whatever the proof.
    pub fn receive_proof(&mut self, e: &Env, public_inputs: &[u8], proof: &[u8]) -> (result: Result<
        Option<Recorded>,
        Error,
    >)
        requires
            old(self).wf(),
        ensures
            final(self).wf(),
            match receive_refusal(old(self)@, public_inputs@, proof@) {
                Some(error) => {
                    &&& result == Err::<Option<Recorded>, Error>(error)
                    &&& final(self)@ == old(self)@
                },
                None => {
                    let key = statement_of(public_inputs@).unwrap();
                    &&& final(self)@ == old(self)@.with_proven(key)
                    &&& old(self)@.proven.contains(key) ==> result == Ok::<
                        Option<Recorded>,
                        Error,
                    >(None)
                    &&& !old(self)@.proven.contains(key) ==> {
                        &&& result matches Ok(Some(done))
                        &&& (done.event.chain_id, done.event.payload_hash@) == key
                        &&& done == recorded(
                            (Statement {
                                chain_id: done.event.chain_id,
                                payload_hash: done.event.payload_hash,
                            }),
                        )
                    }
                },
            },
    {
        let statement: Statement = match parse_public_inputs(public_inputs) {
            Err(error) => {
                return Err(error);
            },
            Ok(statement) => statement,
        };
        if self.is_proven(statement.chain_id, &statement.payload_hash) {
            assert(self@.proven.insert(statement.key()) =~= self@.proven);
            return Ok(None);
        }
        let s0: [u8; 32] = copy_array::<32>(public_inputs, 0);
        let s1: [u8; 32] = copy_array::<32>(public_inputs, SIGNAL_LEN);
        match Self::verify_groth16(e, &self.key, &s0, &s1, proof) {
            Err(error) => Err(error),
            Ok(accepted) => self.record(statement, accepted),
        }
    }

    /// Records `statement`, given whether its proof was accepted. For a statement that is
    /// proven already there is nothing to do.
    pub fn record(&mut self, statement: Statement, accepted: bool) -> (result: Result<
        Option<Recorded>,
        Error,
    >)
        requires
            old(self).wf(),
        ensures
            final(self).wf(),
            if old(self)@.proven.contains(statement.key()) {
                &&& result == Ok::<Option<Recorded>, Error>(None)
                &&& final(self)@ == old(self)@
            } else if accepted {
                &&& result == Ok::<Option<Recorded>, Error>(Some(recorded(statement)))
                &&& final(self)@ == old(self)@.with_proven(statement.key())
            } else {
                &&& result == Err::<Option<Recorded>, Error>(Error::InvalidProof)
                &&& final(self)@ == old(self)@
            },
    {
        if self.is_proven(statement.chain_id, &statement.payload_hash) {
            return Ok(None);
        }
        if !accepted {
            return Err(Error::InvalidProof);
        }
        proof {
            lemma_push_statement(self.proven@, statement);
        }
        self.proven.push(statement);
        Ok(
            Some(
                Recorded {
                    event: ProofVerified {
                        chain_id: statement.chain_id,
                        payload_hash: statement.payload_hash,
                    },
                    proof_ttl: TtlExtension {
                        threshold: PROOF_TTL_THRESHOLD,
                        extend_to: PROOF_TTL_EXTEND,
                    },
                    instance_ttl: instance_ttl(),
                },
            ),
        )
    }

    /// Returns whether a proof has been recorded for `(chain_id, payload_hash)`.
    pub fn is_proven(&self, chain_id: u64, payload_hash: &[u8; 32]) -> (proven: bool)
        ensures
            proven == self@.proven.contains((chain_id, payload_hash@)),
    {
        let ghost keys = self.proven@.map_values(|s: Statement| s.key());
        let mut i: usize = 0;
        while i < self.proven.len()
            invariant
                i <= self.proven@.len(),
                keys == self.proven@.map_values(|s: Statement| s.key()),
                forall|j: int| 0 <= j < i ==> keys[j] != (chain_id, payload_hash@),
            decreases self.proven@.len() - i,
        {
            let known: Statement = self.proven[i];
            if known.chain_id == chain_id && array_eq(&known.payload_hash, payload_hash) {
                assert(keys[i as int] == (chain_id, payload_hash@));
                return true;
            }
            i += 1;
        }
        false
    }

    /// Returns the Groth16 verifying key currently in use.
    pub fn verifying_key(&self) -> (key: &VerifyingKey)
        ensures
            key@ == self@.key,
    {
        &self.key
    }

    /// Replaces the verifying key. Owner-only.
    ///
    /// Lets the owner rotate to a new circuit's key without migrating recorded proofs. The
    /// owner can install a key that accepts forged proofs, so consumers trust the owner until
    /// ownership is renounced.
    pub fn set_verifying_key(&mut self, call: &Invocation, key: VerifyingKey) -> (result: Result<
        Rotated,
        Revert<Error>,
    >)
        requires
            old(self).wf(),
        ensures
            final(self).wf(),
            match rotation_refusal(old(self)@, *call, key@) {
                Some(revert) => {
                    &&& result == Err::<Rotated, Revert<Error>>(revert)
                    &&& final(self)@ == old(self)@
                },
                None => {
                    &&& result == Ok::<Rotated, Revert<Error>>(
                        (Rotated {
                            event: VerifyingKeyUpdated {  },
                            instance_ttl: instance_ttl_spec(),
                        }),
                    )
                    &&& final(self)@ == old(self)@.with_key(key@)
                },
            },
    {
        match enforce_owner_auth::<Error>(&self.owner, call) {
            Ok(()) => {},
            Err(revert) => {
                return Err(revert);
            },
        }
        if key.ic.len() != IC_LEN {
            return Err(Revert::Contract(Error::InvalidVerifyingKey));
        }
        self.key = key;
        Ok(Rotated { event: VerifyingKeyUpdated {  }, instance_ttl: instance_ttl() })
    }

    /// Checks the Groth16 pairing equation for the proof `A`, `B`, `C` against the verifying
    /// key and the two public signals `s0`, `s1`.
    ///
    /// Computes `ic[0] + s0 * ic[1] + s1 * ic[2]` and returns whether the product of the
    /// pairings of `-A` with `B`, `alpha` with `beta`, that point with `gamma` and `C` with
    /// `delta` is one. A proof of another length, or bytes that encode no point, are an
    /// invalid proof.
    pub fn verify_groth16(
        e: &Env,
        key: &VerifyingKey,
        s0: &[u8; 32],
        s1: &[u8; 32],
        proof: &[u8],
    ) -> (result: Result<bool, Error>)
        requires
            key@.ic.len() == IC_LEN,
        ensures
            !decodes(key@, proof@) ==> result == Err::<bool, Error>(Error::InvalidProof),
            decodes(key@, proof@) ==> result == Ok::<bool, Error>(
                accepts(key@, be_nat(s0@), be_nat(s1@), proof@),
            ),
    {
        if proof.len() != PROOF_LEN {
            return Err(Error::InvalidProof);
        }
        let a: [u8; 64] = copy_array::<64>(proof, 0);
        let b: [u8; 128] = copy_array::<128>(proof, G1_LEN);
        let c: [u8; 64] = copy_array::<64>(proof, G1_LEN + G2_LEN);
        let ic0: [u8; 64] = key.ic[0];
        let ic1: [u8; 64] = key.ic[1];
        let ic2: [u8; 64] = key.ic[2];
        let proof_decodes: bool = encodes_g1(e, &a) && encodes_g2(&b) && encodes_g1(e, &c);
        let key_decodes: bool = encodes_g1(e, &key.alpha) && encodes_g2(&key.beta) && encodes_g2(
            &key.gamma,
        ) && encodes_g2(&key.delta) && encodes_g1(e, &ic0) && encodes_g1(e, &ic1) && encodes_g1(
            e,
            &ic2,
        );
        if !proof_decodes || !key_decodes {
            return Err(Error::InvalidProof);
        }
        let bases: Vec<[u8; 64]> = vec![ic1, ic2];
        let scalars: Vec<[u8; 32]> = vec![*s0, *s1];
        let sum: [u8; 64] = g1_msm(e, &bases, &scalars);
        let signals: [u8; 64] = g1_add(e, &ic0, &sum);
        let neg_a: [u8; 64] = g1_neg(e, &a);
        proof {
            lemma_negated_is_point(a@);
            assert(views(bases@) =~= seq![key@.ic[1], key@.ic[2]]);
            assert(scalars_of(scalars@) =~= seq![
                be_nat(s0@) % scalar_modulus(),
                be_nat(s1@) % scalar_modulus(),
            ]);
        }
        let (points, twisted): (Vec<[u8; 64]>, Vec<[u8; 128]>) = pairing_terms(
            key,
            neg_a,
            b,
            c,
            signals,
        );
        proof {
            assert(views(points@) =~= seq![
                g1_negated(proof_a(proof@)),
                key@.alpha,
                signals@,
                proof_c(proof@),
            ]);
            assert(views(twisted@) =~= seq![
                proof_b(proof@),
                key@.beta,
                key@.gamma,
                key@.delta,
            ]);
        }
        Ok(pairing_check(e, &points, &twisted))
    }
}

/// A list with one statement more has one key more.
proof fn lemma_push_statement(statements: Seq<Statement>, statement: Statement)
    ensures
        statement_keys(statements.push(statement)) == statement_keys(statements).insert(
            statement.key(),
        ),
{
    let before = statements.map_values(|s: Statement| s.key());
    let after = statements.push(statement).map_values(|s: Statement| s.key());
    assert(after =~= before.push(statement.key()));
    assert forall|key: (u64, Seq<u8>)| #[trigger]
        before.to_set().insert(statement.key()).contains(key) implies after.to_set().contains(
        key,
    ) by {
        if key == statement.key() {
            assert(after[before.len() as int] == key);
        } else {
            let i = choose|i: int| 0 <= i < before.len() && before[i] == key;
            assert(after[i] == key);
        }
    }
    assert(after.to_set() =~= before.to_set().insert(statement.key()));
}

} // verus!
