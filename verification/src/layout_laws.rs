//! What the byte layouts are, digit by digit: numbers, orders, receipts and curve points.
use vstd::arithmetic::div_mod::{
    lemma_div_denominator, lemma_hoist_over_denominator, lemma_mod_equivalence,
    lemma_mod_multiples_vanish,
};
use vstd::arithmetic::power::{lemma_pow_adds, lemma_pow_positive, pow};
use vstd::prelude::*;

use crate::address::Address;
use crate::bn254::{
    bn254_g2_in_subgroup, field_modulus, g1_negated, g1_point, g2_point, lemma_negated_is_point,
    scalar_modulus, scalars_of, views, word,
};
use crate::encoding::{
    be_bytes, be_nat, byte_range, lemma_be_bytes_len, lemma_be_bytes_of_be_nat, lemma_be_nat_bound,
    lemma_be_nat_of_be_bytes, twos_complement,
};
use crate::host::keccak256_digest;
use crate::orders::{content_id, order_preimage, Order};
use crate::space_object::{receipt_preimage, FillReceipt};

verus! {

/// What `n` bytes can hold is a power of 256.
proof fn lemma_byte_range_is_pow(n: nat)
    ensures
        byte_range(n) == pow(256, n),
    decreases n,
{
    reveal(pow);
    if n > 0 {
        lemma_byte_range_is_pow((n - 1) as nat);
    }
}

/// A written number has as many bytes as asked for, and the byte at each place is the digit of
/// the number in base 256 that belongs there, most significant first.
pub proof fn law_be_bytes_are_digits(x: nat, n: nat)
    ensures
        be_bytes(x, n).len() == n,
        forall|i: int|
            0 <= i < n ==> #[trigger] be_bytes(x, n)[i] == (x as int / pow(
                256,
                (n - 1 - i) as nat,
            )) % 256,
    decreases n,
{
    lemma_be_bytes_len(x, n);
    if n > 0 {
        let head = be_bytes(x / 256, (n - 1) as nat);
        law_be_bytes_are_digits(x / 256, (n - 1) as nat);
        assert forall|i: int| 0 <= i < n implies #[trigger] be_bytes(x, n)[i] == (x as int / pow(
            256,
            (n - 1 - i) as nat,
        )) % 256 by {
            reveal(pow);
            if i < n - 1 {
                let k = (n - 2 - i) as nat;
                assert(be_bytes(x, n)[i] == head[i]);
                assert(pow(256, (k + 1) as nat) == 256 * pow(256, k));
                lemma_pow_positive(256, k);
                lemma_div_denominator(x as int, 256, pow(256, k));
            } else {
                assert(pow(256, 0) == 1);
            }
        }
    }
}

/// The number that a byte string denotes is the one below 256 to the power of the length whose
/// digits in base 256 are the bytes, most significant first.
pub proof fn law_be_nat_has_the_bytes_as_digits(s: Seq<u8>)
    ensures
        0 <= be_nat(s) < pow(256, s.len()),
        forall|i: int|
            0 <= i < s.len() ==> #[trigger] s[i] == (be_nat(s) as int / pow(
                256,
                (s.len() - 1 - i) as nat,
            )) % 256,
{
    lemma_be_nat_bound(s);
    lemma_byte_range_is_pow(s.len());
    lemma_be_bytes_of_be_nat(s);
    law_be_bytes_are_digits(be_nat(s), s.len());
    assert forall|i: int| 0 <= i < s.len() implies #[trigger] s[i] == (be_nat(s) as int / pow(
        256,
        (s.len() - 1 - i) as nat,
    )) % 256 by {
        assert(be_bytes(be_nat(s), s.len())[i] == s[i]);
    }
}

/// The number in the 32 bytes at a place has those bytes as its digits.
pub proof fn law_word_has_its_bytes_as_digits(bytes: Seq<u8>, i: int)
    requires
        0 <= i,
        32 * i + 32 <= bytes.len(),
    ensures
        word(bytes, i) == be_nat(bytes.subrange(32 * i, 32 * i + 32)),
        0 <= word(bytes, i) < pow(256, 32),
        forall|j: int|
            32 * i <= j < 32 * i + 32 ==> #[trigger] bytes[j] == (word(bytes, i) as int / pow(
                256,
                (32 * i + 31 - j) as nat,
            )) % 256,
{
    let part = bytes.subrange(32 * i, 32 * i + 32);
    law_be_nat_has_the_bytes_as_digits(part);
    assert forall|j: int| 32 * i <= j < 32 * i + 32 implies #[trigger] bytes[j] == (word(
        bytes,
        i,
    ) as int / pow(256, (32 * i + 31 - j) as nat)) % 256 by {
        assert(part[j - 32 * i] == bytes[j]);
    }
}

/// Two's complement gives the number of 16 bytes that is congruent to the signed one.
pub proof fn law_twos_complement_is_congruent(x: i128)
    ensures
        0 <= twos_complement(x) < 0x1_0000_0000_0000_0000_0000_0000_0000_0000int,
        (twos_complement(x) - x) % 0x1_0000_0000_0000_0000_0000_0000_0000_0000int == 0,
        x >= 0 ==> twos_complement(x) == x,
{
}

/// The bytes of a signed number in two's complement are its digits in base 256, where division
/// rounds down.
proof fn lemma_signed_digits(x: i128)
    ensures
        be_bytes(twos_complement(x), 16).len() == 16,
        forall|i: int|
            0 <= i < 16 ==> #[trigger] be_bytes(twos_complement(x), 16)[i] == (x as int / pow(
                256,
                (15 - i) as nat,
            )) % 256,
{
    let bits = twos_complement(x);
    law_be_bytes_are_digits(bits, 16);
    if x < 0 {
        assert(pow(256, 16) == 0x1_0000_0000_0000_0000_0000_0000_0000_0000int) by {
            lemma_byte_range_is_pow(16);
            crate::encoding::lemma_byte_range_values();
        }
        assert forall|i: int| 0 <= i < 16 implies #[trigger] be_bytes(bits, 16)[i] == (x as int
            / pow(256, (15 - i) as nat)) % 256 by {
            let k = (15 - i) as nat;
            let j = (16 - k) as nat;
            let d = pow(256, k);
            lemma_pow_positive(256, k);
            lemma_pow_adds(256, j, k);
            assert(bits == x + pow(256, j) * d);
            lemma_hoist_over_denominator(x as int, pow(256, j), d as nat);
            let m = pow(256, (j - 1) as nat);
            assert(pow(256, j) == 256 * m) by {
                reveal(pow);
            }
            lemma_mod_multiples_vanish(m, x as int / d, 256);
        }
    }
}

/// An address is written as the tag of an address value and the tag of its kind, four bytes
/// each, for an account four more, and the 32 bytes of its payload.
pub proof fn law_address_layout(a: Address)
    ensures
        a.xdr().len() == (if a is Account {
            44int
        } else {
            40int
        }),
        a.xdr().subrange(0, 7) == seq![0u8, 0, 0, 18, 0, 0, 0],
        a matches Address::Account(key) ==> a.xdr()[7] == 0 && a.xdr().subrange(8, 12) == seq![
            0u8,
            0,
            0,
            0,
        ] && a.xdr().subrange(12, 44) == key@,
        a matches Address::Contract(hash) ==> a.xdr()[7] == 1 && a.xdr().subrange(8, 40) == hash@,
{
    assert(a.xdr().subrange(0, 7) =~= seq![0u8, 0, 0, 18, 0, 0, 0]);
    match a {
        Address::Account(key) => {
            assert(a.xdr().subrange(8, 12) =~= seq![0u8, 0, 0, 0]);
            assert(a.xdr().subrange(12, 44) =~= key@);
        },
        Address::Contract(hash) => {
            assert(a.xdr().subrange(8, 40) =~= hash@);
        },
    }
}

/// How many bytes an address takes.
pub open spec fn address_len(a: Address) -> int {
    if a is Account {
        44
    } else {
        40
    }
}

/// Where each term of an order stands in the bytes that its id is the digest of, whatever the
/// taker and the token are: after the two addresses, `amount_in` at 0, `token_out` at 16,
/// `amount_out` at 48, `recipient` at 64, `dest_chain` at 96, `deadline` at 104 and `nonce` at
/// 112, each number with its most significant byte first.
pub proof fn law_order_layout(o: Order)
    ensures
        content_id(o) == keccak256_digest(order_preimage(o)),
        ({
            let p = order_preimage(o);
            let t = address_len(o.taker);
            let k = t + address_len(o.token_in);
            &&& p.len() == k + 120
            &&& p.subrange(0, t) == o.taker.xdr()
            &&& p.subrange(t, k) == o.token_in.xdr()
            &&& forall|i: int|
                k <= i < k + 16 ==> #[trigger] p[i] == (o.amount_in as int / pow(
                    256,
                    (k + 15 - i) as nat,
                )) % 256
            &&& p.subrange(k + 16, k + 48) == o.token_out@
            &&& forall|i: int|
                k + 48 <= i < k + 64 ==> #[trigger] p[i] == (o.amount_out as int / pow(
                    256,
                    (k + 63 - i) as nat,
                )) % 256
            &&& p.subrange(k + 64, k + 96) == o.recipient@
            &&& be_nat(p.subrange(k + 96, k + 104)) == o.dest_chain
            &&& be_nat(p.subrange(k + 104, k + 112)) == o.deadline
            &&& be_nat(p.subrange(k + 112, k + 120)) == o.nonce
        }),
{
    let p = order_preimage(o);
    let t = address_len(o.taker);
    let k = t + address_len(o.token_in);
    let amount_in = be_bytes(twos_complement(o.amount_in), 16);
    let amount_out = be_bytes(twos_complement(o.amount_out), 16);
    law_address_layout(o.taker);
    law_address_layout(o.token_in);
    lemma_signed_digits(o.amount_in);
    lemma_signed_digits(o.amount_out);
    lemma_be_bytes_len(o.dest_chain as nat, 8);
    lemma_be_bytes_len(o.deadline as nat, 8);
    lemma_be_bytes_len(o.nonce as nat, 8);
    crate::encoding::lemma_byte_range_values();
    lemma_be_nat_of_be_bytes(o.dest_chain as nat, 8);
    lemma_be_nat_of_be_bytes(o.deadline as nat, 8);
    lemma_be_nat_of_be_bytes(o.nonce as nat, 8);
    assert(p.subrange(0, t) =~= o.taker.xdr());
    assert(p.subrange(t, k) =~= o.token_in.xdr());
    assert(p.subrange(k + 16, k + 48) =~= o.token_out@);
    assert(p.subrange(k + 64, k + 96) =~= o.recipient@);
    assert(p.subrange(k + 96, k + 104) =~= be_bytes(o.dest_chain as nat, 8));
    assert(p.subrange(k + 104, k + 112) =~= be_bytes(o.deadline as nat, 8));
    assert(p.subrange(k + 112, k + 120) =~= be_bytes(o.nonce as nat, 8));
    assert forall|i: int| k <= i < k + 16 implies #[trigger] p[i] == (o.amount_in as int / pow(
        256,
        (k + 15 - i) as nat,
    )) % 256 by {
        assert(p[i] == amount_in[i - k]);
    }
    assert forall|i: int| k + 48 <= i < k + 64 implies #[trigger] p[i] == (o.amount_out as int
        / pow(256, (k + 63 - i) as nat)) % 256 by {
        assert(p[i] == amount_out[i - k - 48]);
    }
}

/// Where each term of a receipt stands in the bytes that are hashed, whatever the repayment
/// address is: `order_id` at 0, `solver` at 32, the address at 64, and after it `origin_chain`
/// and `filled_at`, each number with its most significant byte first.
pub proof fn law_receipt_layout(r: FillReceipt)
    ensures
        ({
            let p = receipt_preimage(r);
            let k = 64 + address_len(r.repayment_address);
            &&& p.len() == k + 16
            &&& p.subrange(0, 32) == r.order_id@
            &&& p.subrange(32, 64) == r.solver@
            &&& p.subrange(64, k) == r.repayment_address.xdr()
            &&& be_nat(p.subrange(k, k + 8)) == r.origin_chain
            &&& be_nat(p.subrange(k + 8, k + 16)) == r.filled_at
        }),
{
    let p = receipt_preimage(r);
    let k = 64 + address_len(r.repayment_address);
    law_address_layout(r.repayment_address);
    lemma_be_bytes_len(r.origin_chain as nat, 8);
    lemma_be_bytes_len(r.filled_at as nat, 8);
    crate::encoding::lemma_byte_range_values();
    lemma_be_nat_of_be_bytes(r.origin_chain as nat, 8);
    lemma_be_nat_of_be_bytes(r.filled_at as nat, 8);
    assert(p.subrange(0, 32) =~= r.order_id@);
    assert(p.subrange(32, 64) =~= r.solver@);
    assert(p.subrange(64, k) =~= r.repayment_address.xdr());
    assert(p.subrange(k, k + 8) =~= be_bytes(r.origin_chain as nat, 8));
    assert(p.subrange(k + 8, k + 16) =~= be_bytes(r.filled_at as nat, 8));
}

/// The order of the field and the order of the groups are those of the Barreto-Naehrig curve
/// with parameter `x`.
pub proof fn law_moduli()
    ensures
        ({
            let x = 4965661367192848881int;
            let (x2, x3, x4) = (x * x, x * x * x, x * x * x * x);
            &&& field_modulus() == 36 * x4 + 36 * x3 + 24 * x2 + 6 * x + 1
            &&& scalar_modulus() == 36 * x4 + 36 * x3 + 18 * x2 + 6 * x + 1
        }),
{
}

/// The points of G1 are all pairs of reduced coordinates for which `Y^2 - X^3 - 3` vanishes in
/// the field, and the point at infinity, which is all zeros; no other bytes encode one.
pub proof fn law_g1_points(p: Seq<u8>)
    ensures
        p.len() != 64 ==> !g1_point(p),
        p.len() == 64 ==> {
            let m = 0x30644e72e131a029b85045b68181585d97816a916871ca8d3c208c16d87cfd47int;
            let x = be_nat(p.subrange(0, 32)) as int;
            let y = be_nat(p.subrange(32, 64)) as int;
            g1_point(p) <==> x < m && y < m && (x == 0 && y == 0 || (y * y - x * x * x - 3) % m
                == 0)
        },
{
    if p.len() == 64 {
        let m = 0x30644e72e131a029b85045b68181585d97816a916871ca8d3c208c16d87cfd47int;
        let x = be_nat(p.subrange(0, 32)) as int;
        let y = be_nat(p.subrange(32, 64)) as int;
        lemma_mod_equivalence(y * y, x * x * x + 3, m);
    }
}

/// The points of G2 are all reduced coordinates for which `Y^2 - X^3` is the constant of the
/// twisted curve and which lie in the subgroup, and the point at infinity, which is all zeros;
/// no other bytes encode one. The constant times `9 + u` is 3.
pub proof fn law_g2_points(q: Seq<u8>)
    ensures
        q.len() != 128 ==> !g2_point(q),
        q.len() == 128 ==> {
            let m = 0x30644e72e131a029b85045b68181585d97816a916871ca8d3c208c16d87cfd47int;
            let b0 = 19485874751759354771024239261021720505790618469301721065564631296452457478373int;
            let b1 = 266929791119991161246907387137283842545076965332900288569378510910307636690int;
            let x1 = be_nat(q.subrange(0, 32)) as int;
            let x0 = be_nat(q.subrange(32, 64)) as int;
            let y1 = be_nat(q.subrange(64, 96)) as int;
            let y0 = be_nat(q.subrange(96, 128)) as int;
            &&& (9 * b0 - b1 - 3) % m == 0
            &&& (9 * b1 + b0) % m == 0
            &&& g2_point(q) <==> x0 < m && x1 < m && y0 < m && y1 < m && (x0 == 0 && x1 == 0 && y0
                == 0 && y1 == 0 || ((y0 * y0 - y1 * y1 - (x0 * x0 * x0 - 3 * (x0 * x1 * x1)) - b0)
                % m == 0 && (2 * (y0 * y1) - (3 * (x0 * x0 * x1) - x1 * x1 * x1) - b1) % m == 0
                && bn254_g2_in_subgroup(q)))
        },
{
    if q.len() == 128 {
        let m = 0x30644e72e131a029b85045b68181585d97816a916871ca8d3c208c16d87cfd47int;
        let b0 = 19485874751759354771024239261021720505790618469301721065564631296452457478373int;
        let b1 = 266929791119991161246907387137283842545076965332900288569378510910307636690int;
        let x1 = be_nat(q.subrange(0, 32)) as int;
        let x0 = be_nat(q.subrange(32, 64)) as int;
        let y1 = be_nat(q.subrange(64, 96)) as int;
        let y0 = be_nat(q.subrange(96, 128)) as int;
        let (l0, l1) = (y0 * y0 - y1 * y1, y0 * y1 + y1 * y0);
        let (s0, s1) = (x0 * x0 - x1 * x1, x0 * x1 + x1 * x0);
        let (c0, c1) = (s0 * x0 - s1 * x1, s0 * x1 + s1 * x0);
        assert(l1 == 2 * (y0 * y1)) by (nonlinear_arith)
            requires
                l1 == y0 * y1 + y1 * y0,
        ;
        assert(c0 == x0 * x0 * x0 - 3 * (x0 * x1 * x1)) by (nonlinear_arith)
            requires
                s0 == x0 * x0 - x1 * x1,
                s1 == x0 * x1 + x1 * x0,
                c0 == s0 * x0 - s1 * x1,
        ;
        assert(c1 == 3 * (x0 * x0 * x1) - x1 * x1 * x1) by (nonlinear_arith)
            requires
                s0 == x0 * x0 - x1 * x1,
                s1 == x0 * x1 + x1 * x0,
                c1 == s0 * x1 + s1 * x0,
        ;
        lemma_mod_equivalence(l0, c0 + b0, m);
        lemma_mod_equivalence(l1, c1 + b1, m);
    }
}

/// A point and its negation have the same `X`, and their `Y` add up to zero in the field; the
/// encoding of the negation is reduced.
pub proof fn law_negation_is_inverse(p: Seq<u8>)
    requires
        g1_point(p),
    ensures
        ({
            let m = 0x30644e72e131a029b85045b68181585d97816a916871ca8d3c208c16d87cfd47int;
            let n = g1_negated(p);
            &&& n.len() == 64
            &&& n.subrange(0, 32) == p.subrange(0, 32)
            &&& be_nat(n.subrange(32, 64)) < m
            &&& (be_nat(p.subrange(32, 64)) as int + be_nat(n.subrange(32, 64))) % m == 0
        }),
{
    let m = 0x30644e72e131a029b85045b68181585d97816a916871ca8d3c208c16d87cfd47int;
    let y = be_nat(p.subrange(32, 64));
    let z: nat = if y == 0 {
        0
    } else {
        (m - y) as nat
    };
    lemma_be_bytes_len(z, 32);
    reveal_with_fuel(byte_range, 33);
    lemma_be_nat_of_be_bytes(z, 32);
    lemma_negated_is_point(p);
    let n = g1_negated(p);
    assert(n.subrange(0, 32) =~= p.subrange(0, 32));
    assert(n.subrange(32, 64) =~= be_bytes(z, 32));
}

/// Lists are handed to the curve operations item by item and in order: each point as its bytes,
/// each scalar as its number modulo the order of the groups.
pub proof fn law_lists_keep_their_items<const N: usize>(
    points: Seq<[u8; N]>,
    scalars: Seq<[u8; 32]>,
)
    ensures
        views(points).len() == points.len(),
        forall|i: int| 0 <= i < points.len() ==> #[trigger] views(points)[i] == points[i]@,
        scalars_of(scalars).len() == scalars.len(),
        forall|i: int|
            0 <= i < scalars.len() ==> #[trigger] scalars_of(scalars)[i] == be_nat(scalars[i]@)
                % 0x30644e72e131a029b85045b68181585d2833e84879b9709143e1f593f0000001nat,
{
}

} // verus!
