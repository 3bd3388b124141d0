//! Big-endian integers and byte-array helpers.
use vstd::prelude::*;

verus! {

/// `256` to the power `n`: how many values `n` bytes can hold.
pub open spec fn byte_range(n: nat) -> nat
    decreases n,
{
    if n == 0 {
        1
    } else {
        256 * byte_range((n - 1) as nat)
    }
}

/// The number that a byte string denotes, most significant byte first.
pub open spec fn be_nat(s: Seq<u8>) -> nat
    decreases s.len(),
{
    if s.len() == 0 {
        0
    } else {
        be_nat(s.drop_last()) * 256 + s.last() as nat
    }
}

/// The last `n` base-256 digits of `x`, most significant first.
pub open spec fn be_bytes(x: nat, n: nat) -> Seq<u8>
    decreases n,
{
    if n == 0 {
        Seq::empty()
    } else {
        be_bytes(x / 256, (n - 1) as nat).push((x % 256) as u8)
    }
}

/// The unsigned number with the two's complement bit pattern of `x`.
pub open spec fn twos_complement(x: i128) -> nat {
    if x >= 0 {
        x as nat
    } else {
        (x + 0x1_0000_0000_0000_0000_0000_0000_0000_0000) as nat
    }
}

/// A byte string denotes a number below `256` to the power of its length.
pub proof fn lemma_be_nat_bound(s: Seq<u8>)
    ensures
        be_nat(s) < byte_range(s.len()),
    decreases s.len(),
{
    if s.len() > 0 {
        lemma_be_nat_bound(s.drop_last());
    }
}

/// `be_bytes(x, n)` has `n` bytes.
pub proof fn lemma_be_bytes_len(x: nat, n: nat)
    ensures
        be_bytes(x, n).len() == n,
    decreases n,
{
    if n > 0 {
        lemma_be_bytes_len(x / 256, (n - 1) as nat);
    }
}

/// Reading back what was written gives the number, where `n` bytes can hold it.
pub proof fn lemma_be_nat_of_be_bytes(x: nat, n: nat)
    requires
        x < byte_range(n),
    ensures
        be_nat(be_bytes(x, n)) == x,
    decreases n,
{
    if n > 0 {
        lemma_be_nat_of_be_bytes(x / 256, (n - 1) as nat);
        let head = be_bytes(x / 256, (n - 1) as nat);
        assert(be_bytes(x, n).drop_last() =~= head);
    }
}

/// Writing the number that a byte string denotes gives the byte string.
pub proof fn lemma_be_bytes_of_be_nat(s: Seq<u8>)
    ensures
        be_bytes(be_nat(s), s.len()) == s,
    decreases s.len(),
{
    if s.len() > 0 {
        lemma_be_bytes_of_be_nat(s.drop_last());
        assert(be_nat(s) / 256 == be_nat(s.drop_last()));
        assert(be_nat(s) % 256 == s.last() as nat);
        assert(s.drop_last().push(s.last()) =~= s);
    } else {
        assert(be_bytes(be_nat(s), s.len()) =~= s);
    }
}

/// Distinct numbers that fit have distinct encodings.
pub proof fn lemma_be_bytes_injective(x: nat, y: nat, n: nat)
    requires
        x < byte_range(n),
        y < byte_range(n),
        be_bytes(x, n) == be_bytes(y, n),
    ensures
        x == y,
{
    lemma_be_nat_of_be_bytes(x, n);
    lemma_be_nat_of_be_bytes(y, n);
}

/// Concatenation shifts the first number by the length of the second.
pub proof fn lemma_be_nat_concat(a: Seq<u8>, b: Seq<u8>)
    ensures
        be_nat(a + b) == be_nat(a) * byte_range(b.len()) + be_nat(b),
    decreases b.len(),
{
    if b.len() == 0 {
        assert(a + b =~= a);
        assert(byte_range(0) == 1);
        assert(be_nat(a) * 1 == be_nat(a));
    } else {
        lemma_be_nat_concat(a, b.drop_last());
        assert((a + b).drop_last() =~= a + b.drop_last());
        assert((a + b).last() == b.last());
        let k = byte_range((b.len() - 1) as nat);
        assert((be_nat(a) * k) * 256 == be_nat(a) * (256 * k)) by (nonlinear_arith);
    }
}

/// What 8 and 16 bytes can hold.
pub proof fn lemma_byte_range_values()
    ensures
        byte_range(8) == 0x1_0000_0000_0000_0000nat,
        byte_range(16) == 0x1_0000_0000_0000_0000_0000_0000_0000_0000nat,
{
    reveal_with_fuel(byte_range, 17);
}

/// Appends the low `n` bytes of `x` to `buf`, most significant first.
pub fn push_be(buf: &mut Vec<u8>, x: u128, n: usize)
    ensures
        final(buf)@ == old(buf)@ + be_bytes(x as nat, n as nat),
    decreases n,
{
    if n > 0 {
        push_be(buf, x / 256, n - 1);
        buf.push((x % 256) as u8);
        assert(buf@ =~= old(buf)@ + be_bytes(x as nat, n as nat));
    } else {
        assert(buf@ =~= old(buf)@ + be_bytes(x as nat, n as nat));
    }
}

/// Appends the sixteen bytes of `x` in two's complement, most significant first.
pub fn push_be_i128(buf: &mut Vec<u8>, x: i128)
    ensures
        final(buf)@ == old(buf)@ + be_bytes(twos_complement(x), 16),
{
    let bits: u128 = if x >= 0 {
        x as u128
    } else {
        u128::MAX - (-(x + 1)) as u128
    };
    assert(bits as nat == twos_complement(x));
    push_be(buf, bits, 16);
}

/// Reads sixteen bytes of `bytes`, starting at `at`, as a big-endian number.
pub fn read_u128(bytes: &[u8], at: usize) -> (x: u128)
    requires
        at + 16 <= bytes@.len(),
    ensures
        x as nat == be_nat(bytes@.subrange(at as int, at + 16)),
{
    let len: usize = bytes.len();
    let mut acc: u128 = 0;
    let mut i: usize = 0;
    while i < 16
        invariant
            i <= 16,
            len == bytes@.len(),
            at + 16 <= len,
            acc as nat == be_nat(bytes@.subrange(at as int, at + i)),
        decreases 16 - i,
    {
        proof {
            let read = bytes@.subrange(at as int, at + i);
            let next = bytes@.subrange(at as int, at + i + 1);
            assert(next.drop_last() =~= read);
            assert(next.last() == bytes@[at + i]);
            lemma_be_nat_bound(next);
            lemma_byte_range_values();
            lemma_byte_range_monotone(next.len(), 16);
        }
        acc = acc * 256 + bytes[at + i] as u128;
        i += 1;
    }
    acc
}

/// More bytes hold more values.
pub proof fn lemma_byte_range_monotone(m: nat, n: nat)
    requires
        m <= n,
    ensures
        byte_range(m) <= byte_range(n),
    decreases n,
{
    if m < n {
        lemma_byte_range_monotone(m, (n - 1) as nat);
    }
}

/// Copies `N` bytes of `bytes`, starting at `at`.
pub fn copy_array<const N: usize>(bytes: &[u8], at: usize) -> (out: [u8; N])
    requires
        at + N <= bytes@.len(),
    ensures
        out@ == bytes@.subrange(at as int, at + N),
{
    let len: usize = bytes.len();
    let mut out: [u8; N] = [0u8; N];
    let mut i: usize = 0;
    while i < N
        invariant
            i <= N,
            len == bytes@.len(),
            at + N <= len,
            out@.len() == N,
            forall|j: int| 0 <= j < i ==> out@[j] == bytes@[at + j],
        decreases N - i,
    {
        out[i] = bytes[at + i];
        i += 1;
    }
    assert(out@ =~= bytes@.subrange(at as int, at + N));
    out
}

/// Whether two byte arrays hold the same bytes.
pub fn array_eq<const N: usize>(a: &[u8; N], b: &[u8; N]) -> (same: bool)
    ensures
        same == (*a == *b),
        same == (a@ == b@),
{
    let mut i: usize = 0;
    while i < N
        invariant
            i <= N,
            a@.len() == N,
            b@.len() == N,
            forall|j: int| 0 <= j < i ==> a@[j] == b@[j],
        decreases N - i,
    {
        if a[i] != b[i] {
            return false;
        }
        i += 1;
    }
    assert(*a =~= *b);
    true
}

/// Byte arrays with equal views are equal.
pub proof fn lemma_array_ext<const N: usize>(a: [u8; N], b: [u8; N])
    requires
        a@ == b@,
    ensures
        a == b,
{
    assert forall|i: int| 0 <= i < N implies a[i] == b[i] by {
        assert(a@[i] == b@[i]);
    }
    assert(a =~= b);
}

} // verus!
