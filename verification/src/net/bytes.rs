//! Big-endian (network order) encoding of integers.

use vstd::prelude::*;

verus! {

/// Big-endian 16-bit value at `off`.
pub open spec fn spec_be_u16(d: Seq<u8>, off: int) -> int {
    d[off] * 256 + d[off + 1]
}

/// Big-endian 32-bit value at `off`.
pub open spec fn spec_be_u32(d: Seq<u8>, off: int) -> int {
    spec_be_u16(d, off) * 0x1_0000 + spec_be_u16(d, off + 2)
}

/// The two big-endian bytes of `v`.
pub open spec fn spec_u16_be(v: u16) -> Seq<u8> {
    seq![(v / 256) as u8, (v % 256) as u8]
}

/// The four big-endian bytes of `v`.
pub open spec fn spec_u32_be(v: u32) -> Seq<u8> {
    seq![(v / 0x100_0000) as u8, ((v / 0x1_0000) % 256) as u8, ((v / 256) % 256) as u8, (v % 256) as u8]
}

/// Reads a big-endian `u16` at `off`.
pub fn read_be_u16(d: &[u8], off: usize) -> (r: u16)
    requires
        off + 2 <= d@.len(),
    ensures
        r == spec_be_u16(d@, off as int),
{
    d[off] as u16 * 256 + d[off + 1] as u16
}

/// Reads a big-endian `u32` at `off`.
pub fn read_be_u32(d: &[u8], off: usize) -> (r: u32)
    requires
        off + 4 <= d@.len(),
    ensures
        r == spec_be_u32(d@, off as int),
{
    let _n = d.len();
    let hi = read_be_u16(d, off) as u32;
    let lo = read_be_u16(d, off + 2) as u32;
    hi * 0x1_0000 + lo
}

/// The big-endian bytes of a `u16`.
pub fn u16_to_be(v: u16) -> (r: [u8; 2])
    ensures
        r@ == spec_u16_be(v),
{
    let r = [(v / 256) as u8, (v % 256) as u8];
    assert(r@ =~= spec_u16_be(v));
    r
}

/// The big-endian bytes of a `u32`.
pub fn u32_to_be(v: u32) -> (r: [u8; 4])
    ensures
        r@ == spec_u32_be(v),
{
    let r = [(v / 0x100_0000) as u8, ((v / 0x1_0000) % 256) as u8, ((v / 256) % 256) as u8, (v % 256) as u8];
    assert(r@ =~= spec_u32_be(v));
    r
}

/// Decoding the big-endian bytes of a `u16` gives the value back.
pub proof fn lemma_u16_be_roundtrip(v: u16)
    ensures
        spec_be_u16(spec_u16_be(v), 0) == v,
{
}

/// Decoding the big-endian bytes of a `u32` gives the value back.
pub proof fn lemma_u32_be_roundtrip(v: u32)
    ensures
        spec_be_u32(spec_u32_be(v), 0) == v,
{
    let b = spec_u32_be(v);
    assert(b[0] == v / 0x100_0000);
    assert(b[1] == (v / 0x1_0000) % 256);
    assert(b[2] == (v / 256) % 256);
    assert(b[3] == v % 256);
    assert((v / 0x100_0000) * 256 + (v / 0x1_0000) % 256 == v / 0x1_0000);
    assert(((v / 256) % 256) * 256 + v % 256 == v % 0x1_0000);
}

/// The `j`-th 16-bit big-endian word of `d`, a trailing odd byte padded
/// with a zero byte.
pub open spec fn spec_word(d: Seq<u8>, j: int) -> int {
    if 2 * j + 1 < d.len() {
        d[2 * j] * 256 + d[2 * j + 1]
    } else {
        d[2 * j] * 256
    }
}

/// Sum of the first `k` words of `d`.
pub open spec fn spec_word_sum(d: Seq<u8>, k: int) -> int
    decreases k,
{
    if k <= 0 {
        0
    } else {
        spec_word_sum(d, k - 1) + spec_word(d, k - 1)
    }
}

/// Number of words in `d`.
pub open spec fn spec_word_count(d: Seq<u8>) -> int {
    (d.len() + 1) as int / 2
}

/// End-around-carry folding of a sum into 16 bits.
pub open spec fn spec_fold16(s: int) -> int
    decreases s,
{
    if s < 0x1_0000 {
        s
    } else {
        spec_fold16(s % 0x1_0000 + s / 0x1_0000)
    }
}

/// The internet checksum of a sum of words: the complement of its folded
/// value.
pub open spec fn spec_checksum_of(sum: int) -> u16 {
    (0xFFFF - spec_fold16(sum)) as u16
}

/// A sum of words is never negative.
pub proof fn lemma_word_sum_nonneg(d: Seq<u8>, k: int)
    ensures
        spec_word_sum(d, k) >= 0,
    decreases k,
{
    if k > 0 {
        lemma_word_sum_nonneg(d, k - 1);
        let j = k - 1;
        if 0 <= 2 * j < d.len() {
            assert(d[2 * j] >= 0);
        }
    }
}

proof fn lemma_word_sum_mono(d: Seq<u8>, k: int, n: int)
    requires
        0 <= k <= n,
        n <= spec_word_count(d),
    ensures
        spec_word_sum(d, k) <= spec_word_sum(d, n),
    decreases n - k,
{
    if k < n {
        lemma_word_sum_mono(d, k + 1, n);
    }
}

/// Adds the words of `d` to `init`.
pub fn add_words(init: u32, d: &[u8]) -> (r: u32)
    requires
        d@.len() + 2 <= usize::MAX,
        init + spec_word_sum(d@, spec_word_count(d@)) <= u32::MAX,
    ensures
        r == init + spec_word_sum(d@, spec_word_count(d@)),
{
    let n = d.len();
    let mut sum = init;
    let mut i: usize = 0;
    while i < n
        invariant
            n == d@.len(),
            n + 2 <= usize::MAX,
            0 <= i <= n + 1,
            i % 2 == 0,
            i <= n || i == n + 1,
            sum == init + spec_word_sum(d@, i as int / 2),
            init + spec_word_sum(d@, spec_word_count(d@)) <= u32::MAX,
        decreases n + 1 - i,
    {
        proof {
            lemma_word_sum_mono(d@, i as int / 2 + 1, spec_word_count(d@));
            assert((i as int + 2) / 2 == i as int / 2 + 1);
        }
        if i + 1 < n {
            let word = d[i] as u32 * 256 + d[i + 1] as u32;
            sum = sum + word;
        } else {
            sum = sum + (d[i] as u32) * 256;
        }
        i = i + 2;
    }
    proof {
        assert(i as int / 2 == spec_word_count(d@));
    }
    sum
}

/// Folds the carries of a sum into 16 bits and complements it.
pub fn fold_checksum(s: u32) -> (r: u16)
    ensures
        r == spec_checksum_of(s as int),
{
    let mut sum = s;
    while sum >> 16 != 0
        invariant
            spec_fold16(sum as int) == spec_fold16(s as int),
        decreases sum,
    {
        proof {
            assert(sum >> 16 == sum / 0x1_0000 && sum & 0xFFFF == sum % 0x1_0000) by (bit_vector);
            assert(sum >> 16 != 0 ==> sum >= 0x1_0000) by (bit_vector);
            assert(sum % 0x1_0000 + sum / 0x1_0000 < sum) by (nonlinear_arith)
                requires sum >= 0x1_0000;
        }
        sum = (sum & 0xFFFF) + (sum >> 16);
    }
    proof {
        assert(sum >> 16 == 0 ==> sum < 0x1_0000) by (bit_vector);
    }
    (0xFFFFu32 - sum) as u16
}

/// Folding keeps a sum's residue modulo `0xFFFF`, lands in 16 bits, and
/// gives zero only for a zero sum.
pub proof fn lemma_fold16(s: int)
    requires
        s >= 0,
    ensures
        0 <= spec_fold16(s) <= 0xFFFF,
        spec_fold16(s) % 0xFFFF == s % 0xFFFF,
        s > 0 ==> spec_fold16(s) > 0,
    decreases s,
{
    if s >= 0x1_0000 {
        let q = s / 0x1_0000;
        let r = s % 0x1_0000;
        let t = r + q;
        assert(s == 0x1_0000 * q + r);
        assert(s == 0xFFFF * q + t);
        lemma_fold16(t);
        vstd::arithmetic::div_mod::lemma_mod_multiples_vanish(q, t, 0xFFFF);
    }
}

/// Adding the checksum of a sum to the sum gives a sum whose checksum is
/// zero: a receiver that sums the words with the checksum in place finds
/// nothing wrong.
pub proof fn lemma_checksum_verifies(s: int)
    requires
        s >= 0,
    ensures
        spec_checksum_of(s + spec_checksum_of(s) as int) == 0,
{
    lemma_fold16(s);
    let f = spec_fold16(s);
    let c = spec_checksum_of(s) as int;
    assert(c == 0xFFFF - f);
    let t = s + c;
    assert(t > 0);
    vstd::arithmetic::div_mod::lemma_mod_equivalence(s, f, 0xFFFF);
    vstd::arithmetic::div_mod::lemma_mod_multiples_vanish(1, s - f, 0xFFFF);
    assert(t == 0xFFFF * 1 + (s - f));
    lemma_fold16(t);
    assert(spec_fold16(t) == 0xFFFF);
}

} // verus!
