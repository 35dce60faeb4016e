use vstd::prelude::*;

verus! {

/// Bit `pos` of `x`, counted from the least significant bit (0 or 1).
pub open spec fn bit_of(x: u64, pos: u64) -> u64 {
    (x >> pos) & 1
}

/// Small facts about 64-bit words: a bit is 0 or 1, a 6-bit mask stays below 64, the
/// bits of 0 and of an XOR, XOR with 0, and exchanging the halves twice.
pub proof fn lemma_word_facts(x: u64, y: u64, p: u64)
    by (bit_vector)
    ensures
        (x >> p) & 1 <= 1,
        x & 0x3F < 64,
        (0u64 >> p) & 1 == 0,
        ((x ^ y) >> p) & 1 == ((x >> p) & 1) ^ ((y >> p) & 1),
        x ^ 0 == x,
        x ^ x == 0,
        0u64 ^ 0u64 == 0,
        (((x << 32u64) | (x >> 32u64)) << 32u64) | (((x << 32u64) | (x >> 32u64)) >> 32u64) == x,
{
}

/// A single bit is 0 or 1, and masking with 0x3F leaves a value below 64.
pub proof fn lemma_mask_bounds(x: u64, pos: u64)
    ensures
        bit_of(x, pos) <= 1,
        x & 0x3F < 64,
{
    lemma_word_facts(x, 0, pos);
}

/// What OR-ing `b << s`, with `b` a single bit, does to bit `p`.
pub proof fn lemma_or_bit(x: u64, b: u64, s: u64, p: u64)
    requires
        b <= 1,
        s < 64,
        p < 64,
    ensures
        p == s && bit_of(x, p) == 0 ==> bit_of(x | (b << s), p) == b,
        p != s ==> bit_of(x | (b << s), p) == bit_of(x, p),
{
    assert(p == s && (x >> p) & 1 == 0 ==> ((x | (b << s)) >> p) & 1 == b) by (bit_vector)
        requires
            b <= 1,
            s < 64,
            p < 64,
    ;
    assert(p != s ==> ((x | (b << s)) >> p) & 1 == (x >> p) & 1) by (bit_vector)
        requires
            b <= 1,
            s < 64,
            p < 64,
    ;
}

proof fn lemma_bits_eq_from(a: u64, b: u64, n: u64)
    requires
        n <= 64,
        a >> n == b >> n,
        forall|i: u64| i < n ==> #[trigger] bit_of(a, i) == bit_of(b, i),
    ensures
        a == b,
    decreases n,
{
    if n > 0 {
        let m = (n - 1) as u64;
        assert(bit_of(a, m) == bit_of(b, m));
        assert(a >> m == b >> m) by (bit_vector)
            requires
                a >> n == b >> n,
                (a >> m) & 1 == (b >> m) & 1,
                m < 64,
                n == m + 1,
        ;
        lemma_bits_eq_from(a, b, m);
    } else {
        assert(a == b) by (bit_vector)
            requires
                a >> n == b >> n,
                n == 0,
        ;
    }
}

/// Two 64-bit words with the same 64 bits are equal.
pub proof fn lemma_bits_eq(a: u64, b: u64)
    requires
        forall|i: u64| i < 64 ==> #[trigger] bit_of(a, i) == bit_of(b, i),
    ensures
        a == b,
{
    let n: u64 = 64;
    assert(a >> n == b >> n) by (bit_vector)
        requires
            n == 64,
    ;
    lemma_bits_eq_from(a, b, n);
}

} // verus!
