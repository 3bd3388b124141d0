use ark_bn254::g2::{G2_GENERATOR_X, G2_GENERATOR_Y};
use ark_bn254::{Bn254, Fq, Fq2, Fr, G1Affine, G2Affine};
use ark_ff::{BigInteger, PrimeField};
use ark_groth16::{Groth16, VerifyingKey as ArkVk};
use ark_relations::r1cs::{
    ConstraintSynthesizer, ConstraintSystemRef, LinearCombination, SynthesisError, Variable,
};
use ark_snark::SNARK;
use ark_std::rand::{rngs::StdRng, SeedableRng};
use intent_bridge::access::{Invocation, Revert};
use intent_bridge::address::Address;
use intent_bridge::bn254::{encodes_g1, encodes_g2};
use intent_bridge::ledger::TtlExtension;
use intent_bridge::space_object::{FillReceipt, OracleAnswer, ProtocolConfig, SpaceObject};
use intent_bridge::zk_oracle::{
    parse_public_inputs, Error, ProofVerified, Recorded, Rotated, Statement, VerifyingKey,
    VerifyingKeyUpdated, ZkOracle,
};
use soroban_sdk::testutils::EnvTestConfig;
use soroban_sdk::Env;

//
// ---- arkworks proof generation and EIP-197 serialization ----
//

/// A trivial circuit with two public inputs: `(a + b) * 1 = c`, with `a`, `b` public and
/// `c` a witness. Satisfiable for any `(a, b)`, giving a verifying key whose
/// `gamma_abc_g1` has exactly 3 entries, which matches the oracle's two signals.
#[derive(Clone)]
struct SumCircuit {
    a: Option<Fr>,
    b: Option<Fr>,
}

impl ConstraintSynthesizer<Fr> for SumCircuit {
    fn generate_constraints(self, cs: ConstraintSystemRef<Fr>) -> Result<(), SynthesisError> {
        let a = cs.new_input_variable(|| self.a.ok_or(SynthesisError::AssignmentMissing))?;
        let b = cs.new_input_variable(|| self.b.ok_or(SynthesisError::AssignmentMissing))?;
        let c = cs.new_witness_variable(|| {
            Ok(self.a.ok_or(SynthesisError::AssignmentMissing)?
                + self.b.ok_or(SynthesisError::AssignmentMissing)?)
        })?;
        let zero = LinearCombination::<Fr>::zero;
        cs.enforce_constraint(zero() + a + b, zero() + Variable::One, zero() + c)?;
        Ok(())
    }
}

/// Big-endian 32-byte serialization of a prime-field element.
fn pf_be<F: PrimeField>(f: &F) -> [u8; 32] {
    let be = f.into_bigint().to_bytes_be();
    let mut out = [0u8; 32];
    out[32 - be.len()..].copy_from_slice(&be);
    out
}

/// EIP-197 G1 encoding: `be(X)`, then `be(Y)` (64 zero bytes for the identity).
fn g1_bytes(p: &G1Affine) -> [u8; 64] {
    let mut out = [0u8; 64];
    if p.infinity {
        return out;
    }
    out[..32].copy_from_slice(&pf_be(&p.x));
    out[32..].copy_from_slice(&pf_be(&p.y));
    out
}

/// EIP-197 G2 encoding: `be(X)`, then `be(Y)`, each `be(c1)`, then `be(c0)`.
fn g2_bytes(p: &G2Affine) -> [u8; 128] {
    let mut out = [0u8; 128];
    if p.infinity {
        return out;
    }
    out[..32].copy_from_slice(&pf_be::<Fq>(&p.x.c1));
    out[32..64].copy_from_slice(&pf_be::<Fq>(&p.x.c0));
    out[64..96].copy_from_slice(&pf_be::<Fq>(&p.y.c1));
    out[96..].copy_from_slice(&pf_be::<Fq>(&p.y.c0));
    out
}

fn to_key(vk: &ArkVk<Bn254>) -> VerifyingKey {
    VerifyingKey {
        alpha: g1_bytes(&vk.alpha_g1),
        beta: g2_bytes(&vk.beta_g2),
        gamma: g2_bytes(&vk.gamma_g2),
        delta: g2_bytes(&vk.delta_g2),
        ic: vk.gamma_abc_g1.iter().map(g1_bytes).collect(),
    }
}

/// A complete set of test vectors for one circuit and proof.
struct Vectors {
    vk: VerifyingKey,
    public_inputs: [u8; 64],
    proof: [u8; 256],
    chain_id: u64,
    payload_hash: [u8; 32],
}

/// Runs a fresh Groth16 setup (`seed`) and proves the statement
/// `(chain_id, payload mod r)`, returning vectors in the oracle's encoding.
fn prove(seed: u64, chain_id: u64, payload: [u8; 32]) -> Vectors {
    let a_val = Fr::from(chain_id);
    let b_val = Fr::from_be_bytes_mod_order(&payload);

    let mut rng = StdRng::seed_from_u64(seed);
    let (pk, ark_vk) =
        Groth16::<Bn254>::circuit_specific_setup(SumCircuit { a: None, b: None }, &mut rng)
            .unwrap();
    let ark_proof = Groth16::<Bn254>::prove(
        &pk,
        SumCircuit {
            a: Some(a_val),
            b: Some(b_val),
        },
        &mut rng,
    )
    .unwrap();
    // Sanity-check on the arkworks side first.
    assert!(Groth16::<Bn254>::verify(&ark_vk, &[a_val, b_val], &ark_proof).unwrap());

    let mut pi = [0u8; 64];
    pi[..32].copy_from_slice(&pf_be(&a_val));
    pi[32..].copy_from_slice(&pf_be(&b_val));

    let mut pf = [0u8; 256];
    pf[..64].copy_from_slice(&g1_bytes(&ark_proof.a));
    pf[64..192].copy_from_slice(&g2_bytes(&ark_proof.b));
    pf[192..].copy_from_slice(&g1_bytes(&ark_proof.c));

    Vectors {
        vk: to_key(&ark_vk),
        public_inputs: pi,
        proof: pf,
        chain_id,
        payload_hash: pf_be(&b_val),
    }
}

fn env() -> Env {
    Env::new_with_config(EnvTestConfig {
        capture_snapshot_at_drop: false,
    })
}

const OWNER: Address = Address::Account([1; 32]);

fn deploy(vk: &VerifyingKey) -> ZkOracle {
    ZkOracle::__constructor(OWNER, vk.clone())
        .ok()
        .unwrap()
        .oracle
}

fn call(authorized: &[Address]) -> Invocation {
    Invocation {
        contract: Address::Contract([2; 32]),
        timestamp: 0,
        authorized: authorized.to_vec(),
    }
}

//
// ---- tests ----
//

#[test]
fn verifies_real_proof_and_records_statement() {
    let e = env();
    let v = prove(1, 42, [0xab; 32]);
    let mut oracle = deploy(&v.vk);

    assert!(!oracle.is_proven(v.chain_id, &v.payload_hash));

    let recorded = oracle.receive_proof(&e, &v.public_inputs, &v.proof);
    assert_eq!(
        recorded,
        Ok(Some(Recorded {
            event: ProofVerified {
                chain_id: 42,
                payload_hash: v.payload_hash,
            },
            proof_ttl: TtlExtension {
                threshold: 501_120,
                extend_to: 518_400,
            },
            instance_ttl: TtlExtension {
                threshold: 103_680,
                extend_to: 120_960,
            },
        }))
    );

    assert!(oracle.is_proven(v.chain_id, &v.payload_hash));
    // Unrelated statements remain unproven.
    assert!(!oracle.is_proven(v.chain_id, &[0u8; 32]));
    assert!(!oracle.is_proven(99, &v.payload_hash));
}

#[test]
fn idempotent_resubmit_skips_verification() {
    let e = env();
    let v = prove(1, 7, [0x11; 32]);
    let mut oracle = deploy(&v.vk);

    assert!(matches!(
        oracle.receive_proof(&e, &v.public_inputs, &v.proof),
        Ok(Some(_))
    ));
    assert!(oracle.is_proven(v.chain_id, &v.payload_hash));

    // Already proven: even a garbage proof is a no-op (verification is skipped).
    let broken = [0u8; 256];
    assert_eq!(oracle.receive_proof(&e, &v.public_inputs, &broken), Ok(None));
    assert!(oracle.is_proven(v.chain_id, &v.payload_hash));
    assert_eq!(oracle.receive_proof(&e, &v.public_inputs, &[]), Ok(None));
}

#[test]
fn verifying_key_getter_returns_stored_key() {
    let v = prove(1, 1, [0x01; 32]);
    let oracle = deploy(&v.vk);
    assert_eq!(*oracle.verifying_key(), v.vk);
    assert_eq!(oracle.get_owner(), Some(OWNER));
}

#[test]
fn rejects_tampered_proof() {
    let e = env();
    let v = prove(1, 1, [0x22; 32]);
    let mut oracle = deploy(&v.vk);

    let mut pf = v.proof;
    pf[200] ^= 0x01; // flip a byte inside C
    assert_eq!(
        oracle.receive_proof(&e, &v.public_inputs, &pf),
        Err(Error::InvalidProof)
    );
    assert!(!oracle.is_proven(v.chain_id, &v.payload_hash));
}

#[test]
fn rejects_proof_for_wrong_statement() {
    let e = env();
    let v = prove(1, 1, [0x22; 32]);
    let mut oracle = deploy(&v.vk);

    // Valid proof, but the claimed chain id no longer matches the proof.
    let mut pi = v.public_inputs;
    pi[31] ^= 0x01;
    assert_eq!(
        oracle.receive_proof(&e, &pi, &v.proof),
        Err(Error::InvalidProof)
    );
}

#[test]
fn rejects_bad_public_input_length() {
    let e = env();
    let v = prove(1, 1, [0x33; 32]);
    let mut oracle = deploy(&v.vk);
    assert_eq!(
        oracle.receive_proof(&e, &[0u8; 32], &v.proof),
        Err(Error::InvalidPublicInputs)
    );
}

#[test]
fn rejects_bad_proof_length() {
    let e = env();
    let v = prove(1, 1, [0x44; 32]);
    let mut oracle = deploy(&v.vk);
    assert_eq!(
        oracle.receive_proof(&e, &v.public_inputs, &[0u8; 100]),
        Err(Error::InvalidProof)
    );
}

#[test]
fn rejects_chain_id_exceeding_u64() {
    let e = env();
    let v = prove(1, 1, [0x55; 32]);
    let mut oracle = deploy(&v.vk);

    let mut pi = v.public_inputs;
    pi[0] = 0x01; // a high byte of the chain id: it does not fit
    assert_eq!(
        oracle.receive_proof(&e, &pi, &v.proof),
        Err(Error::InvalidPublicInputs)
    );
}

#[test]
fn constructor_rejects_wrong_ic_length() {
    let v = prove(1, 1, [0x66; 32]);
    let bad_vk = VerifyingKey {
        ic: vec![v.vk.ic[0], v.vk.ic[1]],
        ..v.vk.clone()
    };
    assert_eq!(
        ZkOracle::__constructor(OWNER, bad_vk).err(),
        Some(Error::InvalidVerifyingKey)
    );
}

#[test]
fn owner_can_rotate_verifying_key() {
    let e = env();

    let v1 = prove(1, 5, [0x77; 32]);
    let mut oracle = deploy(&v1.vk);
    assert!(oracle.receive_proof(&e, &v1.public_inputs, &v1.proof).is_ok());

    // Rotate to an independently generated key (different trusted setup).
    let v2 = prove(2, 8, [0x88; 32]);
    assert_eq!(
        oracle.set_verifying_key(&call(&[OWNER]), v2.vk.clone()),
        Ok(Rotated {
            event: VerifyingKeyUpdated {},
            instance_ttl: TtlExtension {
                threshold: 103_680,
                extend_to: 120_960,
            },
        })
    );
    assert_eq!(*oracle.verifying_key(), v2.vk);

    // A proof under the new key verifies and is recorded; what was proven before stays.
    assert!(oracle.receive_proof(&e, &v2.public_inputs, &v2.proof).is_ok());
    assert!(oracle.is_proven(v2.chain_id, &v2.payload_hash));
    assert!(oracle.is_proven(v1.chain_id, &v1.payload_hash));
}

#[test]
fn deploying_the_oracle_extends_the_instance_entry() {
    let v = prove(1, 5, [0x77; 32]);
    let deployed = ZkOracle::__constructor(OWNER, v.vk.clone()).ok().unwrap();
    assert_eq!(*deployed.oracle.verifying_key(), v.vk);
    assert_eq!(
        deployed.instance_ttl,
        TtlExtension {
            threshold: 103_680,
            extend_to: 120_960,
        }
    );
}

#[test]
fn rotation_needs_the_owner_and_a_fitting_key() {
    let v = prove(1, 5, [0x77; 32]);
    let mut oracle = deploy(&v.vk);
    let long = VerifyingKey {
        ic: vec![v.vk.ic[0], v.vk.ic[1], v.vk.ic[2], v.vk.ic[0]],
        ..v.vk.clone()
    };
    let stranger = Address::Account([9; 32]);
    assert_eq!(
        oracle.set_verifying_key(&call(&[stranger]), v.vk.clone()),
        Err(Revert::NotAuthorized)
    );
    assert_eq!(
        oracle.set_verifying_key(&call(&[OWNER]), long.clone()),
        Err(Revert::Contract(Error::InvalidVerifyingKey))
    );
    assert_eq!(*oracle.verifying_key(), v.vk);

    let mut renounced = ZkOracle::from_ledger(None, v.vk.clone(), None).unwrap();
    assert_eq!(
        renounced.set_verifying_key(&call(&[OWNER]), v.vk.clone()),
        Err(Revert::OwnerNotSet)
    );
    assert!(ZkOracle::from_ledger(None, long, None).is_none());
}

#[test]
fn a_proof_counts_for_the_payload_modulo_the_order() {
    let e = env();
    let v = prove(1, 3, [0x01; 32]);
    let mut oracle = deploy(&v.vk);

    // The same payload, plus the order of the scalar field.
    let order = Fr::MODULUS.to_bytes_be();
    let mut pi = v.public_inputs;
    let mut carry = 0u16;
    for i in (0..32).rev() {
        let sum = pi[32 + i] as u16 + order[i] as u16 + carry;
        pi[32 + i] = sum as u8;
        carry = sum >> 8;
    }
    assert_eq!(carry, 0);
    assert!(matches!(
        oracle.receive_proof(&e, &pi, &v.proof),
        Ok(Some(_))
    ));
    // What is recorded is the payload hash as it was handed in.
    let mut hash = [0u8; 32];
    hash.copy_from_slice(&pi[32..]);
    assert!(oracle.is_proven(3, &hash));
    assert!(!oracle.is_proven(3, &v.payload_hash));
}

#[test]
fn proofs_are_turned_away_where_the_key_holds_no_points() {
    let e = env();
    let v = prove(1, 4, [0x01; 32]);
    for i in 0..7 {
        let mut vk = v.vk.clone();
        match i {
            0 => vk.alpha[63] ^= 1,
            1 => vk.beta[127] ^= 1,
            2 => vk.gamma[127] ^= 1,
            3 => vk.delta[127] ^= 1,
            4 => vk.ic[0][63] ^= 1,
            5 => vk.ic[1][63] ^= 1,
            _ => vk.ic[2][63] ^= 1,
        }
        let mut oracle = deploy(&vk);
        assert_eq!(
            oracle.receive_proof(&e, &v.public_inputs, &v.proof),
            Err(Error::InvalidProof)
        );
    }
}

#[test]
fn a_well_formed_proof_of_something_else_is_turned_away() {
    let e = env();
    let v = prove(1, 4, [0x01; 32]);
    let mut oracle = deploy(&v.vk);
    // All points at infinity: well encoded, but the equation does not hold.
    assert_eq!(
        ZkOracle::verify_groth16(&e, &v.vk, &[0; 32], &[0; 32], &[0; 256]),
        Ok(false)
    );
    assert_eq!(
        oracle.receive_proof(&e, &v.public_inputs, &[0; 256]),
        Err(Error::InvalidProof)
    );
    let other = prove(2, 4, [0x01; 32]);
    assert_eq!(
        oracle.receive_proof(&e, &v.public_inputs, &other.proof),
        Err(Error::InvalidProof)
    );
}

#[test]
fn statements_are_recorded_once_and_only_when_accepted() {
    let v = prove(1, 4, [0x01; 32]);
    let mut oracle = deploy(&v.vk);
    let statement = Statement {
        chain_id: 4,
        payload_hash: [5; 32],
    };
    assert_eq!(oracle.record(statement, false), Err(Error::InvalidProof));
    assert!(!oracle.is_proven(4, &[5; 32]));
    assert!(matches!(oracle.record(statement, true), Ok(Some(_))));
    assert_eq!(oracle.record(statement, true), Ok(None));
    assert_eq!(oracle.record(statement, false), Ok(None));
    assert!(oracle.is_proven(4, &[5; 32]));

    let loaded = ZkOracle::from_ledger(None, v.vk.clone(), Some(statement)).unwrap();
    assert!(loaded.is_proven(4, &[5; 32]));
    assert!(!loaded.is_proven(5, &[5; 32]));
}

#[test]
fn public_inputs_are_parsed() {
    let mut pi = [0u8; 64];
    pi[24..32].copy_from_slice(&0x0102_0304_0506_0708u64.to_be_bytes());
    pi[32..].copy_from_slice(&[6; 32]);
    assert_eq!(
        parse_public_inputs(&pi),
        Ok(Statement {
            chain_id: 0x0102_0304_0506_0708,
            payload_hash: [6; 32],
        })
    );
    pi[24..32].copy_from_slice(&[255; 8]);
    assert_eq!(parse_public_inputs(&pi).unwrap().chain_id, u64::MAX);
    for i in 0..24 {
        let mut large = pi;
        large[i] = 1;
        assert_eq!(
            parse_public_inputs(&large),
            Err(Error::InvalidPublicInputs)
        );
    }
    assert_eq!(parse_public_inputs(&[0; 65]), Err(Error::InvalidPublicInputs));
    assert_eq!(parse_public_inputs(&[]), Err(Error::InvalidPublicInputs));
}

#[test]
fn points_of_the_first_group_are_told_from_other_bytes() {
    let e = env();
    let mut p = [0u8; 64];
    assert!(encodes_g1(&e, &p));
    p[31] = 1;
    p[63] = 2;
    assert!(encodes_g1(&e, &p));
    p[63] = 3;
    assert!(!encodes_g1(&e, &p));

    // The generator with the modulus added to X is not reduced.
    let mut p = [0u8; 64];
    p[..32].copy_from_slice(&Fq::MODULUS.to_bytes_be());
    p[31] += 1;
    p[63] = 2;
    assert!(!encodes_g1(&e, &p));
    assert!(!encodes_g1(&e, &[255; 64]));
}

#[test]
fn points_of_the_second_group_are_told_from_other_bytes() {
    assert!(encodes_g2(&[0; 128]));
    let generator = G2Affine::new(G2_GENERATOR_X, G2_GENERATOR_Y);
    let bytes = g2_bytes(&generator);
    assert!(encodes_g2(&bytes));
    let mut off = bytes;
    off[127] ^= 1;
    assert!(!encodes_g2(&off));
    assert!(!encodes_g2(&[255; 128]));

    // A point on the curve that lies outside of the subgroup.
    let outside = (1u64..100)
        .filter_map(|x| {
            G2Affine::get_point_from_x_unchecked(Fq2::new(Fq::from(x), Fq::from(0u64)), true)
        })
        .find(|p| !p.is_in_correct_subgroup_assuming_on_curve())
        .unwrap();
    assert!(outside.is_on_curve());
    assert!(!encodes_g2(&g2_bytes(&outside)));
}

#[test]
fn a_proven_fill_is_paid_for() {
    let e = env();
    let taker = Address::Account([5; 32]);
    let config = ProtocolConfig {
        fee_bps: 250,
        fee_collector: Address::Account([6; 32]),
        zk_oracle: Address::Contract([7; 32]),
    };
    let mut escrow = SpaceObject::__constructor(OWNER, config)
        .ok()
        .unwrap()
        .escrow;
    let opened = escrow
        .create_order(
            &e,
            &call(&[taker]),
            taker,
            Address::Contract([8; 32]),
            10_000,
            [9; 32],
            9_900,
            [10; 32],
            10,
            3_600,
            1,
        )
        .unwrap();
    let receipt = FillReceipt {
        order_id: opened.id,
        solver: [3; 32],
        repayment_address: Address::Account([11; 32]),
        origin_chain: 148,
        filled_at: 123,
    };
    let query = escrow.proof_query(&e, &receipt).unwrap();

    let v = prove(3, query.chain_id, query.payload_hash);
    let mut oracle = deploy(&v.vk);
    let mut inputs = v.public_inputs;
    inputs[32..].copy_from_slice(&query.payload_hash);
    assert!(matches!(
        oracle.receive_proof(&e, &inputs, &v.proof),
        Ok(Some(_))
    ));

    let answer = OracleAnswer {
        query,
        proven: oracle.is_proven(query.chain_id, &query.payload_hash),
    };
    let released = escrow
        .claim(&e, &call(&[]), &receipt, &answer)
        .unwrap();
    assert_eq!(released.fee.amount, 250);
    assert_eq!(released.fee.to, config.fee_collector);
    assert_eq!(released.payout.amount, 9_750);
    assert_eq!(released.payout.to, receipt.repayment_address);
}

#[test]
fn the_statement_at_hand_decides() {
    let e = env();
    let v = prove(1, 42, [0xab; 32]);
    let at_hand = Statement {
        chain_id: v.chain_id,
        payload_hash: v.payload_hash,
    };
    let mut whole = deploy(&v.vk);
    assert!(whole.record(at_hand, true).is_ok());
    let other = Statement {
        chain_id: 1,
        payload_hash: [1; 32],
    };
    assert!(whole.record(other, true).is_ok());
    let mut part = ZkOracle::from_ledger(Some(OWNER), v.vk.clone(), Some(at_hand)).unwrap();
    assert_eq!(
        whole.receive_proof(&e, &v.public_inputs, &[]),
        part.receive_proof(&e, &v.public_inputs, &[])
    );
    let mut none = ZkOracle::from_ledger(Some(OWNER), v.vk.clone(), None).unwrap();
    assert_eq!(
        none.receive_proof(&e, &v.public_inputs, &[]),
        Err(Error::InvalidProof)
    );
}

#[test]
fn oracle_errors_have_their_numbers() {
    assert_eq!(Error::InvalidPublicInputs.code(), 1);
    assert_eq!(Error::InvalidProof.code(), 2);
    assert_eq!(Error::InvalidVerifyingKey.code(), 3);
}
