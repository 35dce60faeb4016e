use vstd::prelude::*;
use crate::consts::{EXP_TABLE, LOG_TABLE};

verus! {

/// The number of bits equal to 1 among the `n` lowest bits of `x`.
pub open spec fn count_ones(x: u64, n: nat) -> nat
    decreases n,
{
    if n == 0 {
        0
    } else {
        count_ones(x, (n - 1) as nat) + if (x >> ((n - 1) as u64)) & 1 == 1 {
            1nat
        } else {
            0nat
        }
    }
}

/// What `multiplication_gf` computes from the logarithm and power tables: the power of
/// the generator at the sum of the two logarithms, modulo 255.
#[verifier::opaque]
pub open spec fn gf_mul_spec(a: u8, b: u8) -> u8 {
    EXP_TABLE[((LOG_TABLE[a as int] + LOG_TABLE[b as int]) % 255) as int]
}

/// The number of bits of `num` that are 1.
pub fn get_one_bit_num(num: u64) -> (res: u8)
    ensures
        res == count_ones(num, 64),
{
    let mut res: u8 = 0;
    for i in 0..64u64
        invariant
            res == count_ones(num, i as nat),
            count_ones(num, i as nat) <= i,
    {
        if (num >> i) & 0x01 == 1 {
            res += 1;
        }
    }
    res
}

/// Multiplication in GF(2^8) through the logarithm and power tables.
pub fn multiplication_gf(a: u8, b: u8) -> (r: u8)
    ensures
        r == gf_mul_spec(a, b),
{
    proof {
        reveal(gf_mul_spec);
        assert(forall|i: int| 0 <= i < 256 ==> #[trigger] LOG_TABLE[i] < 255);
        assert(LOG_TABLE[a as int] < 255 && LOG_TABLE[b as int] < 255);
    }
    let sum: u16 = LOG_TABLE[a as usize] + LOG_TABLE[b as usize];

    return EXP_TABLE[(sum % 0xff) as usize];
}

/// Addition in GF(2^8)^4: the byte-wise XOR of two words.
pub fn addition_gf(equ1: &[u8; 4], equ2: &[u8; 4]) -> (result: [u8; 4])
    ensures
        forall|i: int| 0 <= i < 4 ==> #[trigger] result[i] == equ1[i] ^ equ2[i],
{
    let mut result = [0u8; 4];

    for i in 0..4
        invariant
            forall|j: int| 0 <= j < i ==> #[trigger] result[j] == equ1[j] ^ equ2[j],
    {
        result[i] = equ1[i] ^ equ2[i];
    }
    return result;
}

/// The table product is commutative, and multiplying by 1 (whose logarithm is 0) gives
/// the power of the other factor's logarithm.
pub proof fn lemma_gf_mul_commutative(a: u8, b: u8)
    ensures
        gf_mul_spec(a, b) == gf_mul_spec(b, a),
        gf_mul_spec(a, 1) == EXP_TABLE[(LOG_TABLE[a as int] % 255) as int],
{
    reveal(gf_mul_spec);
    assert(LOG_TABLE[1] == 0);
}

} // verus!
