//! Points of the pairing-friendly curve BN254 as EIP-197 encodes them.
//!
//! - A point of G1 takes 64 bytes: `X`, then `Y`.
//! - A point of G2 takes 128 bytes: `X`, then `Y`, each an element `c0 + c1 * u` of the
//!   quadratic extension, written `c1`, then `c0`.
//! - A scalar takes 32 bytes.
//!
//! Each number takes 32 bytes, big-endian. The point at infinity is all zeros.
use ark_bn254::{Fq, Fq2, G2Affine};
use ark_ff::PrimeField;
use soroban_sdk::crypto::bn254::{Bn254Fr, Bn254G1Affine, Bn254G2Affine};
use soroban_sdk::{BytesN, Env};
use vstd::prelude::*;

use crate::encoding::{
    be_bytes, be_nat, byte_range, lemma_be_bytes_len, lemma_be_nat_concat,
    lemma_be_nat_of_be_bytes, lemma_byte_range_values, read_u128,
};

verus! {

/// The order of the field in which the coordinates of G1 lie.
pub open spec fn field_modulus() -> nat {
    0x30644e72e131a029b85045b68181585d97816a916871ca8d3c208c16d87cfd47nat
}

/// The order of the two groups, and of the field of scalars.
pub open spec fn scalar_modulus() -> nat {
    0x30644e72e131a029b85045b68181585d2833e84879b9709143e1f593f0000001nat
}

/// The upper and the lower 128 bits of the field modulus.
const FIELD_MODULUS_HIGH: u128 = 0x30644e72e131a029b85045b68181585d;

const FIELD_MODULUS_LOW: u128 = 0x97816a916871ca8d3c208c16d87cfd47;

/// The number in the 32 bytes that start at `32 * i`.
pub open spec fn word(bytes: Seq<u8>, i: int) -> nat {
    be_nat(bytes.subrange(32 * i, 32 * i + 32))
}

/// The byte strings that a list of arrays holds.
pub open spec fn views<const N: usize>(list: Seq<[u8; N]>) -> Seq<Seq<u8>> {
    list.map_values(|item: [u8; N]| item@)
}

/// Whether the bytes encode a point of G1: the point at infinity, or a pair of reduced
/// coordinates on the curve `Y^2 = X^3 + 3`.
pub open spec fn g1_point(p: Seq<u8>) -> bool {
    let (x, y) = (word(p, 0), word(p, 1));
    &&& p.len() == 64
    &&& x < field_modulus()
    &&& y < field_modulus()
    &&& (x == 0 && y == 0) || (y * y) % field_modulus() == (x * x * x + 3) % field_modulus()
}

/// The product of two elements of the quadratic extension, in which `u * u == -1`, before
/// it is reduced.
pub open spec fn fq2_mul(a: (int, int), b: (int, int)) -> (int, int) {
    (a.0 * b.0 - a.1 * b.1, a.0 * b.1 + a.1 * b.0)
}

/// Whether the four numbers that the bytes hold are reduced.
pub open spec fn g2_reduced(q: Seq<u8>) -> bool {
    &&& q.len() == 128
    &&& word(q, 0) < field_modulus()
    &&& word(q, 1) < field_modulus()
    &&& word(q, 2) < field_modulus()
    &&& word(q, 3) < field_modulus()
}

/// Whether the coordinates in the bytes satisfy the equation of the twisted curve,
/// `Y^2 = X^3 + 3 / (u + 9)`.
pub open spec fn g2_on_curve(q: Seq<u8>) -> bool {
    let x = (word(q, 1) as int, word(q, 0) as int);
    let y = (word(q, 3) as int, word(q, 2) as int);
    let left = fq2_mul(y, y);
    let cube = fq2_mul(fq2_mul(x, x), x);
    let m = field_modulus() as int;
    &&& left.0 % m == (cube.0
        + 19485874751759354771024239261021720505790618469301721065564631296452457478373int) % m
    &&& left.1 % m == (cube.1
        + 266929791119991161246907387137283842545076965332900288569378510910307636690int) % m
}

/// Whether the point on the twisted curve with these coordinates lies in G2, the subgroup
/// of prime order.
pub uninterp spec fn bn254_g2_in_subgroup(q: Seq<u8>) -> bool;

/// Whether the bytes encode a point of G2: the point at infinity, or reduced coordinates of
/// a point on the twisted curve that lies in the subgroup.
pub open spec fn g2_point(q: Seq<u8>) -> bool {
    &&& g2_reduced(q)
    &&& (word(q, 0) == 0 && word(q, 1) == 0 && word(q, 2) == 0 && word(q, 3) == 0) || (
    g2_on_curve(q) && bn254_g2_in_subgroup(q))
}

/// The encoding of the negated point: the same `X`, and `Y` negated in the field.
pub open spec fn g1_negated(p: Seq<u8>) -> Seq<u8> {
    let y = word(p, 1);
    p.subrange(0, 32) + be_bytes(
        if y == 0 {
            0
        } else {
            (field_modulus() - y) as nat
        },
        32,
    )
}

/// The encoding of the sum of two points of G1.
pub uninterp spec fn bn254_g1_add(p: Seq<u8>, q: Seq<u8>) -> Seq<u8>;

/// The encoding of the sum of the points of G1, each times its scalar.
pub uninterp spec fn bn254_g1_msm(points: Seq<Seq<u8>>, scalars: Seq<nat>) -> Seq<u8>;

/// Whether the product of the pairings of each point of G1 with its point of G2 is one.
pub uninterp spec fn bn254_pairing_check(points: Seq<Seq<u8>>, twisted: Seq<Seq<u8>>) -> bool;

/// The scalars that a list of 32-byte words denotes: each number, reduced.
pub open spec fn scalars_of(words: Seq<[u8; 32]>) -> Seq<nat> {
    words.map_values(|w: [u8; 32]| be_nat(w@) % scalar_modulus())
}

/// Calls `soroban_sdk::crypto::bn254::Bn254::g1_is_on_curve`.
///
/// The host takes all zeros for the point at infinity, which it counts to the curve; of
/// other reduced coordinates it evaluates the curve equation. It aborts where a coordinate
/// is not reduced.
#[verifier::external_body]
fn g1_is_on_curve(e: &Env, p: &[u8; 64]) -> (on_curve: bool)
    requires
        word(p@, 0) < field_modulus(),
        word(p@, 1) < field_modulus(),
    ensures
        on_curve == g1_point(p@),
{
    e.crypto().bn254().g1_is_on_curve(&Bn254G1Affine::from_array(e, p))
}

/// Calls `is_on_curve` of `ark_bn254::G2Affine` on the point with these coordinates.
///
/// The function evaluates the equation of the twisted curve. The point at infinity is not
/// among the points that are made from coordinates.
#[verifier::external_body]
fn g2_is_on_curve(q: &[u8; 128]) -> (on_curve: bool)
    requires
        g2_reduced(q@),
    ensures
        on_curve == g2_on_curve(q@),
{
    let x = Fq2::new(
        Fq::from_be_bytes_mod_order(&q[32..64]),
        Fq::from_be_bytes_mod_order(&q[..32]),
    );
    let y = Fq2::new(
        Fq::from_be_bytes_mod_order(&q[96..]),
        Fq::from_be_bytes_mod_order(&q[64..96]),
    );
    G2Affine::new_unchecked(x, y).is_on_curve()
}

/// Calls `is_in_correct_subgroup_assuming_on_curve` of `ark_bn254::G2Affine` on the point
/// with these coordinates.
///
/// Whether a point of the curve lies in the subgroup is a function of its coordinates,
/// named `bn254_g2_in_subgroup`.
#[verifier::external_body]
fn g2_is_in_subgroup(q: &[u8; 128]) -> (in_subgroup: bool)
    requires
        g2_reduced(q@),
        g2_on_curve(q@),
    ensures
        in_subgroup == bn254_g2_in_subgroup(q@),
{
    let x = Fq2::new(
        Fq::from_be_bytes_mod_order(&q[32..64]),
        Fq::from_be_bytes_mod_order(&q[..32]),
    );
    let y = Fq2::new(
        Fq::from_be_bytes_mod_order(&q[96..]),
        Fq::from_be_bytes_mod_order(&q[64..96]),
    );
    G2Affine::new_unchecked(x, y).is_in_correct_subgroup_assuming_on_curve()
}

/// Calls the negation of `soroban_sdk::crypto::bn254::Bn254G1Affine`.
///
/// `X` is kept and `Y` becomes the modulus less `Y`, except that zero stays zero. The call
/// aborts where `Y` is not reduced.
#[verifier::external_body]
pub(crate) fn g1_neg(e: &Env, p: &[u8; 64]) -> (negated: [u8; 64])
    requires
        word(p@, 1) < field_modulus(),
    ensures
        negated@ == g1_negated(p@),
{
    (-Bn254G1Affine::from_array(e, p)).to_array()
}

/// Calls `soroban_sdk::crypto::bn254::Bn254::g1_add`.
///
/// The sum is a function of the two encodings, named `bn254_g1_add`, and is the encoding of
/// a point of G1 itself. The host aborts where an argument encodes no point.
#[verifier::external_body]
pub(crate) fn g1_add(e: &Env, p: &[u8; 64], q: &[u8; 64]) -> (sum: [u8; 64])
    requires
        g1_point(p@),
        g1_point(q@),
    ensures
        sum@ == bn254_g1_add(p@, q@),
        g1_point(sum@),
{
    let bn = e.crypto().bn254();
    bn.g1_add(&Bn254G1Affine::from_array(e, p), &Bn254G1Affine::from_array(e, q)).to_array()
}

/// Calls `soroban_sdk::crypto::bn254::Bn254::g1_msm`, with the scalars made by
/// `Bn254Fr::from_bytes`.
///
/// The scalars are reduced on the way in. The sum is a function of the points and the
/// reduced scalars, named `bn254_g1_msm`, and is the encoding of a point of G1 itself. The
/// host aborts where an argument encodes no point, and where there are no points or not as
/// many points as scalars.
#[verifier::external_body]
pub(crate) fn g1_msm(e: &Env, points: &Vec<[u8; 64]>, scalars: &Vec<[u8; 32]>) -> (sum: [u8; 64])
    requires
        0 < points@.len() <= u32::MAX,
        points@.len() == scalars@.len(),
        forall|i: int| 0 <= i < points@.len() ==> g1_point((#[trigger] points@[i])@),
    ensures
        sum@ == bn254_g1_msm(views(points@), scalars_of(scalars@)),
        g1_point(sum@),
{
    let vp = points.iter().map(|p| Bn254G1Affine::from_array(e, p));
    let vs = scalars.iter().map(|s| Bn254Fr::from_bytes(BytesN::from_array(e, s)));
    let bn = e.crypto().bn254();
    bn.g1_msm(soroban_sdk::Vec::from_iter(e, vp), soroban_sdk::Vec::from_iter(e, vs)).to_array()
}

/// Calls `soroban_sdk::crypto::bn254::Bn254::pairing_check`.
///
/// The answer is a function of the encodings, named `bn254_pairing_check`. The host aborts
/// where an argument encodes no point, and where there are no pairs or the lists differ in
/// length.
#[verifier::external_body]
pub(crate) fn pairing_check(e: &Env, points: &Vec<[u8; 64]>, twisted: &Vec<[u8; 128]>) -> (one:
    bool)
    requires
        0 < points@.len() <= u32::MAX,
        points@.len() == twisted@.len(),
        forall|i: int| 0 <= i < points@.len() ==> g1_point((#[trigger] points@[i])@),
        forall|i: int| 0 <= i < twisted@.len() ==> g2_point((#[trigger] twisted@[i])@),
    ensures
        one == bn254_pairing_check(views(points@), views(twisted@)),
{
    let vp1 = points.iter().map(|p| Bn254G1Affine::from_array(e, p));
    let vp2 = twisted.iter().map(|q| Bn254G2Affine::from_array(e, q));
    let bn = e.crypto().bn254();
    bn.pairing_check(soroban_sdk::Vec::from_iter(e, vp1), soroban_sdk::Vec::from_iter(e, vp2))
}

/// The two halves of a 32-byte word give the number in it.
proof fn lemma_word_halves(bytes: Seq<u8>, i: int)
    requires
        0 <= i,
        32 * i + 32 <= bytes.len(),
    ensures
        word(bytes, i) == be_nat(bytes.subrange(32 * i, 32 * i + 16))
            * 0x1_0000_0000_0000_0000_0000_0000_0000_0000nat + be_nat(
            bytes.subrange(32 * i + 16, 32 * i + 32),
        ),
{
    let high = bytes.subrange(32 * i, 32 * i + 16);
    let low = bytes.subrange(32 * i + 16, 32 * i + 32);
    assert(bytes.subrange(32 * i, 32 * i + 32) =~= high + low);
    lemma_be_nat_concat(high, low);
    lemma_byte_range_values();
}

/// A 32-byte word of `bytes` as its upper and lower 128 bits.
pub fn read_word(bytes: &[u8], i: usize) -> (halves: (u128, u128))
    requires
        32 * i + 32 <= bytes@.len(),
    ensures
        word(bytes@, i as int) == halves.0 * 0x1_0000_0000_0000_0000_0000_0000_0000_0000nat
            + halves.1,
{
    proof {
        lemma_word_halves(bytes@, i as int);
        assert(bytes@.len() == bytes.len());
    }
    let high: u128 = read_u128(bytes, 32 * i);
    let low: u128 = read_u128(bytes, 32 * i + 16);
    (high, low)
}

/// Whether a 32-byte word of `bytes` is a reduced element of the field.
pub fn is_reduced(bytes: &[u8], i: usize) -> (reduced: bool)
    requires
        32 * i + 32 <= bytes@.len(),
    ensures
        reduced == (word(bytes@, i as int) < field_modulus()),
{
    let (high, low): (u128, u128) = read_word(bytes, i);
    high < FIELD_MODULUS_HIGH || (high == FIELD_MODULUS_HIGH && low < FIELD_MODULUS_LOW)
}

/// Whether a 32-byte word of `bytes` is zero.
pub fn is_zero(bytes: &[u8], i: usize) -> (zero: bool)
    requires
        32 * i + 32 <= bytes@.len(),
    ensures
        zero == (word(bytes@, i as int) == 0),
{
    let (high, low): (u128, u128) = read_word(bytes, i);
    high == 0 && low == 0
}

/// Whether the bytes encode a point of G1.
pub fn encodes_g1(e: &Env, p: &[u8; 64]) -> (yes: bool)
    ensures
        yes == g1_point(p@),
{
    let bytes: &[u8] = p.as_slice();
    is_reduced(bytes, 0) && is_reduced(bytes, 1) && g1_is_on_curve(e, p)
}

/// Whether the bytes encode a point of G2.
pub fn encodes_g2(q: &[u8; 128]) -> (yes: bool)
    ensures
        yes == g2_point(q@),
{
    let bytes: &[u8] = q.as_slice();
    if is_zero(bytes, 0) && is_zero(bytes, 1) && is_zero(bytes, 2) && is_zero(bytes, 3) {
        return true;
    }
    is_reduced(bytes, 0) && is_reduced(bytes, 1) && is_reduced(bytes, 2) && is_reduced(bytes, 3)
        && g2_is_on_curve(q) && g2_is_in_subgroup(q)
}

/// The negation of a point of G1 is a point of G1.
pub proof fn lemma_negated_is_point(p: Seq<u8>)
    requires
        g1_point(p),
    ensures
        g1_point(g1_negated(p)),
{
    let m = field_modulus();
    let (x, y) = (word(p, 0), word(p, 1));
    let z: nat = if y == 0 {
        0
    } else {
        (m - y) as nat
    };
    lemma_be_bytes_len(z, 32);
    reveal_with_fuel(byte_range, 33);
    lemma_be_nat_of_be_bytes(z, 32);
    let n = g1_negated(p);
    assert(n.subrange(0, 32) =~= p.subrange(0, 32));
    assert(n.subrange(32, 64) =~= be_bytes(z, 32));
    assert(word(n, 0) == x);
    assert(word(n, 1) == z);
    if y != 0 {
        assert(z * z == m * (m - 2 * y) + y * y) by (nonlinear_arith)
            requires
                z == m - y,
        ;
        vstd::arithmetic::div_mod::lemma_mod_multiples_vanish(m - 2 * y, y * y as int, m as int);
    }
}

} // verus!
