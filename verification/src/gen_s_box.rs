use vstd::prelude::*;
use crate::gf::{field_mul, field_multiply};

verus! {

/// The matrix A of the affine step of the S-box design (full rank over GF(2)).
pub const MATRIX: [[u8; 8]; 8] = [
    [1, 1, 0, 0, 0, 0, 0, 1],
    [1, 1, 1, 0, 0, 0, 0, 0],
    [0, 1, 1, 1, 0, 0, 0, 0],
    [0, 0, 1, 1, 1, 0, 0, 0],
    [0, 0, 0, 1, 1, 1, 0, 0],
    [0, 0, 0, 0, 1, 1, 1, 0],
    [0, 0, 0, 0, 0, 1, 1, 1],
    [1, 0, 0, 0, 0, 0, 1, 1],
];

/// The constant vector B of the affine step: its entries for b0, ..., b7 are
/// 0, 0, 1, 0, 1, 0, 1, 0, so bit `i` of the byte is entry `i`.
pub const AFFINE_CONSTANT: u8 = 0b01010100;

/// The exponent C of the S-box design, of Hamming weight 7.
pub const S_BOX_EXPONENT: u32 = 0b11111101;

/// Bit `j` of `v`.
pub open spec fn vector_bit(v: u8, j: int) -> u8 {
    (v >> (j as u8)) & 1
}

/// Row `i` of `MATRIX` times the bits of `v` over GF(2), over the first `n` columns: the
/// XOR over `j < n` of `MATRIX[i][j]` AND bit `j` of `v`.
pub open spec fn matrix_row_product(v: u8, i: int, n: nat) -> u8
    decreases n,
{
    if n == 0 {
        0
    } else {
        matrix_row_product(v, i, (n - 1) as nat) ^ (MATRIX[i][n - 1] & vector_bit(v, n - 1))
    }
}

/// The byte whose bit `i`, for `i < n`, is row product `i`: `MATRIX` times the bits of `v`
/// over GF(2) when `n` is 8.
pub open spec fn matrix_product(v: u8, n: nat) -> u8
    decreases n,
{
    if n == 0 {
        0
    } else {
        matrix_product(v, (n - 1) as nat) ^ ((matrix_row_product(v, n - 1, 8) & 1) << ((n - 1) as u8))
    }
}

/// The affine step Y = A·X + B of the S-box design, X and Y read bit by bit.
pub open spec fn affine_spec(x: u8) -> u8 {
    matrix_product(x, 8) ^ AFFINE_CONSTANT
}

/// `x` to the power `n` in GF(2^8).
pub open spec fn field_pow(x: u8, n: nat) -> u8
    decreases n,
{
    if n == 0 {
        1
    } else {
        field_mul(field_pow(x, (n - 1) as nat), x)
    }
}

proof fn lemma_bit_of_xor_shift(x: u8, c: u8, s: u8, r: u8)
    by (bit_vector)
    requires
        s < 8,
        r < 8,
    ensures
        ((x ^ ((c & 1) << s)) >> r) & 1 == if r == s {
            ((x >> r) & 1) ^ (c & 1)
        } else {
            (x >> r) & 1
        },
{
}

/// A row product is a single bit.
proof fn lemma_row_product_bit(v: u8, i: int, n: nat)
    ensures
        matrix_row_product(v, i, n) <= 1,
    decreases n,
{
    if n > 0 {
        lemma_row_product_bit(v, i, (n - 1) as nat);
        let a = matrix_row_product(v, i, (n - 1) as nat);
        let m = MATRIX[i][n - 1];
        let s = (n - 1) as u8;
        assert((a ^ (m & ((v >> s) & 1))) <= 1) by (bit_vector)
            requires
                a <= 1,
        ;
    }
}

/// Bit `r` of `matrix_product(v, n)` is row product `r` below `n`, and 0 above.
proof fn lemma_matrix_product_bits(v: u8, n: nat)
    requires
        n <= 8,
    ensures
        forall|r: int| 0 <= r < 8 ==> #[trigger] vector_bit(matrix_product(v, n), r) == if r < n {
            matrix_row_product(v, r, 8)
        } else {
            0
        },
    decreases n,
{
    if n == 0 {
        assert forall|r: int| 0 <= r < 8 implies #[trigger] vector_bit(matrix_product(v, 0), r) == 0 by {
            let s = r as u8;
            assert((0u8 >> s) & 1 == 0) by (bit_vector);
        }
    } else {
        lemma_matrix_product_bits(v, (n - 1) as nat);
        let prev = matrix_product(v, (n - 1) as nat);
        let c = matrix_row_product(v, n - 1, 8);
        lemma_row_product_bit(v, n - 1, 8);
        assert forall|r: int| 0 <= r < 8 implies #[trigger] vector_bit(matrix_product(v, n), r) == if r < n {
            matrix_row_product(v, r, 8)
        } else {
            0
        } by {
            lemma_bit_of_xor_shift(prev, c, (n - 1) as u8, r as u8);
            assert(vector_bit(prev, r) == if r < n - 1 { matrix_row_product(v, r, 8) } else { 0 });
            assert((c & 1) == c && 0u8 ^ c == c) by (bit_vector)
                requires
                    c <= 1,
            ;
        }
    }
}

proof fn lemma_closed_form_bits(v: u8, m: u8, r0: u8, r1: u8, r2: u8, r3: u8, r4: u8, r5: u8, r6: u8, r7: u8)
    by (bit_vector)
    requires
        r0 == ((((((((0u8 ^ (1u8 & ((v >> 0u8) & 1u8))) ^ (1u8 & ((v >> 1u8) & 1u8))) ^ (0u8 & ((v >> 2u8) & 1u8))) ^ (0u8 & ((v >> 3u8) & 1u8))) ^ (0u8 & ((v >> 4u8) & 1u8))) ^ (0u8 & ((v >> 5u8) & 1u8))) ^ (0u8 & ((v >> 6u8) & 1u8))) ^ (1u8 & ((v >> 7u8) & 1u8))),
        r1 == ((((((((0u8 ^ (1u8 & ((v >> 0u8) & 1u8))) ^ (1u8 & ((v >> 1u8) & 1u8))) ^ (1u8 & ((v >> 2u8) & 1u8))) ^ (0u8 & ((v >> 3u8) & 1u8))) ^ (0u8 & ((v >> 4u8) & 1u8))) ^ (0u8 & ((v >> 5u8) & 1u8))) ^ (0u8 & ((v >> 6u8) & 1u8))) ^ (0u8 & ((v >> 7u8) & 1u8))),
        r2 == ((((((((0u8 ^ (0u8 & ((v >> 0u8) & 1u8))) ^ (1u8 & ((v >> 1u8) & 1u8))) ^ (1u8 & ((v >> 2u8) & 1u8))) ^ (1u8 & ((v >> 3u8) & 1u8))) ^ (0u8 & ((v >> 4u8) & 1u8))) ^ (0u8 & ((v >> 5u8) & 1u8))) ^ (0u8 & ((v >> 6u8) & 1u8))) ^ (0u8 & ((v >> 7u8) & 1u8))),
        r3 == ((((((((0u8 ^ (0u8 & ((v >> 0u8) & 1u8))) ^ (0u8 & ((v >> 1u8) & 1u8))) ^ (1u8 & ((v >> 2u8) & 1u8))) ^ (1u8 & ((v >> 3u8) & 1u8))) ^ (1u8 & ((v >> 4u8) & 1u8))) ^ (0u8 & ((v >> 5u8) & 1u8))) ^ (0u8 & ((v >> 6u8) & 1u8))) ^ (0u8 & ((v >> 7u8) & 1u8))),
        r4 == ((((((((0u8 ^ (0u8 & ((v >> 0u8) & 1u8))) ^ (0u8 & ((v >> 1u8) & 1u8))) ^ (0u8 & ((v >> 2u8) & 1u8))) ^ (1u8 & ((v >> 3u8) & 1u8))) ^ (1u8 & ((v >> 4u8) & 1u8))) ^ (1u8 & ((v >> 5u8) & 1u8))) ^ (0u8 & ((v >> 6u8) & 1u8))) ^ (0u8 & ((v >> 7u8) & 1u8))),
        r5 == ((((((((0u8 ^ (0u8 & ((v >> 0u8) & 1u8))) ^ (0u8 & ((v >> 1u8) & 1u8))) ^ (0u8 & ((v >> 2u8) & 1u8))) ^ (0u8 & ((v >> 3u8) & 1u8))) ^ (1u8 & ((v >> 4u8) & 1u8))) ^ (1u8 & ((v >> 5u8) & 1u8))) ^ (1u8 & ((v >> 6u8) & 1u8))) ^ (0u8 & ((v >> 7u8) & 1u8))),
        r6 == ((((((((0u8 ^ (0u8 & ((v >> 0u8) & 1u8))) ^ (0u8 & ((v >> 1u8) & 1u8))) ^ (0u8 & ((v >> 2u8) & 1u8))) ^ (0u8 & ((v >> 3u8) & 1u8))) ^ (0u8 & ((v >> 4u8) & 1u8))) ^ (1u8 & ((v >> 5u8) & 1u8))) ^ (1u8 & ((v >> 6u8) & 1u8))) ^ (1u8 & ((v >> 7u8) & 1u8))),
        r7 == ((((((((0u8 ^ (1u8 & ((v >> 0u8) & 1u8))) ^ (0u8 & ((v >> 1u8) & 1u8))) ^ (0u8 & ((v >> 2u8) & 1u8))) ^ (0u8 & ((v >> 3u8) & 1u8))) ^ (0u8 & ((v >> 4u8) & 1u8))) ^ (0u8 & ((v >> 5u8) & 1u8))) ^ (1u8 & ((v >> 6u8) & 1u8))) ^ (1u8 & ((v >> 7u8) & 1u8))),
        (m >> 0u8) & 1u8 == r0,
        (m >> 1u8) & 1u8 == r1,
        (m >> 2u8) & 1u8 == r2,
        (m >> 3u8) & 1u8 == r3,
        (m >> 4u8) & 1u8 == r4,
        (m >> 5u8) & 1u8 == r5,
        (m >> 6u8) & 1u8 == r6,
        (m >> 7u8) & 1u8 == r7,
    ensures
        m == v ^ ((v << 1u8) | (v >> 7u8)) ^ ((v >> 1u8) | (v << 7u8)),
{
}

/// The matrix product in closed form: bit `i` is bits `i - 1`, `i` and `i + 1` of `v`
/// (indices modulo 8) XOR-ed together.
pub proof fn lemma_matrix_product_closed_form(v: u8)
    ensures
        matrix_product(v, 8) == v ^ ((v << 1u8) | (v >> 7u8)) ^ ((v >> 1u8) | (v << 7u8)),
{
    lemma_matrix_product_bits(v, 8);
    let m = matrix_product(v, 8);
    assert(matrix_row_product(v, 0, 8) == ((((((((0u8 ^ (1u8 & vector_bit(v, 0))) ^ (1u8 & vector_bit(v, 1))) ^ (0u8 & vector_bit(v, 2))) ^ (0u8 & vector_bit(v, 3))) ^ (0u8 & vector_bit(v, 4))) ^ (0u8 & vector_bit(v, 5))) ^ (0u8 & vector_bit(v, 6))) ^ (1u8 & vector_bit(v, 7)))) by {
        reveal_with_fuel(matrix_row_product, 9);
    }
    assert(matrix_row_product(v, 1, 8) == ((((((((0u8 ^ (1u8 & vector_bit(v, 0))) ^ (1u8 & vector_bit(v, 1))) ^ (1u8 & vector_bit(v, 2))) ^ (0u8 & vector_bit(v, 3))) ^ (0u8 & vector_bit(v, 4))) ^ (0u8 & vector_bit(v, 5))) ^ (0u8 & vector_bit(v, 6))) ^ (0u8 & vector_bit(v, 7)))) by {
        reveal_with_fuel(matrix_row_product, 9);
    }
    assert(matrix_row_product(v, 2, 8) == ((((((((0u8 ^ (0u8 & vector_bit(v, 0))) ^ (1u8 & vector_bit(v, 1))) ^ (1u8 & vector_bit(v, 2))) ^ (1u8 & vector_bit(v, 3))) ^ (0u8 & vector_bit(v, 4))) ^ (0u8 & vector_bit(v, 5))) ^ (0u8 & vector_bit(v, 6))) ^ (0u8 & vector_bit(v, 7)))) by {
        reveal_with_fuel(matrix_row_product, 9);
    }
    assert(matrix_row_product(v, 3, 8) == ((((((((0u8 ^ (0u8 & vector_bit(v, 0))) ^ (0u8 & vector_bit(v, 1))) ^ (1u8 & vector_bit(v, 2))) ^ (1u8 & vector_bit(v, 3))) ^ (1u8 & vector_bit(v, 4))) ^ (0u8 & vector_bit(v, 5))) ^ (0u8 & vector_bit(v, 6))) ^ (0u8 & vector_bit(v, 7)))) by {
        reveal_with_fuel(matrix_row_product, 9);
    }
    assert(matrix_row_product(v, 4, 8) == ((((((((0u8 ^ (0u8 & vector_bit(v, 0))) ^ (0u8 & vector_bit(v, 1))) ^ (0u8 & vector_bit(v, 2))) ^ (1u8 & vector_bit(v, 3))) ^ (1u8 & vector_bit(v, 4))) ^ (1u8 & vector_bit(v, 5))) ^ (0u8 & vector_bit(v, 6))) ^ (0u8 & vector_bit(v, 7)))) by {
        reveal_with_fuel(matrix_row_product, 9);
    }
    assert(matrix_row_product(v, 5, 8) == ((((((((0u8 ^ (0u8 & vector_bit(v, 0))) ^ (0u8 & vector_bit(v, 1))) ^ (0u8 & vector_bit(v, 2))) ^ (0u8 & vector_bit(v, 3))) ^ (1u8 & vector_bit(v, 4))) ^ (1u8 & vector_bit(v, 5))) ^ (1u8 & vector_bit(v, 6))) ^ (0u8 & vector_bit(v, 7)))) by {
        reveal_with_fuel(matrix_row_product, 9);
    }
    assert(matrix_row_product(v, 6, 8) == ((((((((0u8 ^ (0u8 & vector_bit(v, 0))) ^ (0u8 & vector_bit(v, 1))) ^ (0u8 & vector_bit(v, 2))) ^ (0u8 & vector_bit(v, 3))) ^ (0u8 & vector_bit(v, 4))) ^ (1u8 & vector_bit(v, 5))) ^ (1u8 & vector_bit(v, 6))) ^ (1u8 & vector_bit(v, 7)))) by {
        reveal_with_fuel(matrix_row_product, 9);
    }
    assert(matrix_row_product(v, 7, 8) == ((((((((0u8 ^ (1u8 & vector_bit(v, 0))) ^ (0u8 & vector_bit(v, 1))) ^ (0u8 & vector_bit(v, 2))) ^ (0u8 & vector_bit(v, 3))) ^ (0u8 & vector_bit(v, 4))) ^ (0u8 & vector_bit(v, 5))) ^ (1u8 & vector_bit(v, 6))) ^ (1u8 & vector_bit(v, 7)))) by {
        reveal_with_fuel(matrix_row_product, 9);
    }
    assert(vector_bit(m, 0) == matrix_row_product(v, 0, 8));
    assert(vector_bit(m, 1) == matrix_row_product(v, 1, 8));
    assert(vector_bit(m, 2) == matrix_row_product(v, 2, 8));
    assert(vector_bit(m, 3) == matrix_row_product(v, 3, 8));
    assert(vector_bit(m, 4) == matrix_row_product(v, 4, 8));
    assert(vector_bit(m, 5) == matrix_row_product(v, 5, 8));
    assert(vector_bit(m, 6) == matrix_row_product(v, 6, 8));
    assert(vector_bit(m, 7) == matrix_row_product(v, 7, 8));
    lemma_closed_form_bits(
        v,
        m,
        matrix_row_product(v, 0, 8),
        matrix_row_product(v, 1, 8),
        matrix_row_product(v, 2, 8),
        matrix_row_product(v, 3, 8),
        matrix_row_product(v, 4, 8),
        matrix_row_product(v, 5, 8),
        matrix_row_product(v, 6, 8),
        matrix_row_product(v, 7, 8),
    );
}

/// The affine step is a bijection of the bytes: different inputs give different outputs.
pub proof fn lemma_affine_injective(x: u8, y: u8)
    requires
        x != y,
    ensures
        affine_spec(x) != affine_spec(y),
{
    lemma_matrix_product_closed_form(x);
    lemma_matrix_product_closed_form(y);
    let c = AFFINE_CONSTANT;
    assert(x ^ ((x << 1u8) | (x >> 7u8)) ^ ((x >> 1u8) | (x << 7u8)) ^ c != y ^ ((y << 1u8) | (y >> 7u8)) ^ ((y >> 1u8) | (y << 7u8)) ^ c) by (bit_vector)
        requires
            x != y,
    ;
}

/// Multiplies `MATRIX` by the bits of `vector` over GF(2): bit `i` of the result is the
/// XOR over `j` of `MATRIX[i][j]` AND bit `j` of `vector`.
pub fn finite_field_matrix_multiply(vector: &u8) -> (result: u8)
    ensures
        result == matrix_product(*vector, 8),
        forall|i: int| 0 <= i < 8 ==> #[trigger] vector_bit(result, i) == matrix_row_product(*vector, i, 8),
{
    let mut result = 0u8;
    let mut result_vector = [0u8; 8];
    let mut vector_2 = [0u8; 8];
    for i in 0..8usize
        invariant
            forall|j: int| 0 <= j < i ==> #[trigger] vector_2[j] == vector_bit(*vector, j),
    {
        vector_2[i] = *vector >> i & 0b1;
    }

    for i in 0..8usize
        invariant
            forall|j: int| 0 <= j < 8 ==> #[trigger] vector_2[j] == vector_bit(*vector, j),
            forall|r: int| 0 <= r < i ==> #[trigger] result_vector[r] == matrix_row_product(*vector, r, 8),
            forall|r: int| i <= r < 8 ==> #[trigger] result_vector[r] == 0,
    {
        for j in 0..8usize
            invariant
                i < 8,
                forall|j2: int| 0 <= j2 < 8 ==> #[trigger] vector_2[j2] == vector_bit(*vector, j2),
                forall|r: int| 0 <= r < i ==> #[trigger] result_vector[r] == matrix_row_product(*vector, r, 8),
                forall|r: int| i < r < 8 ==> #[trigger] result_vector[r] == 0,
                result_vector[i as int] == matrix_row_product(*vector, i as int, j as nat),
        {
            result_vector[i] ^= MATRIX[i][j] & vector_2[j];
        }
    }

    for i in 0..8usize
        invariant
            forall|r: int| 0 <= r < 8 ==> #[trigger] result_vector[r] == matrix_row_product(*vector, r, 8),
            result == matrix_product(*vector, i as nat),
    {
        result ^= (result_vector[i] & 0b1) << i;
    }
    proof {
        lemma_matrix_product_bits(*vector, 8);
    }
    result
}

/// The affine step of the S-box design: `MATRIX` times the bits of `input`, XOR the
/// constant vector.
#[allow(non_snake_case)]
pub fn affineTransform(input: u8) -> (res: u8)
    ensures
        res == affine_spec(input),
{
    let mut res = finite_field_matrix_multiply(&input);
    res ^= AFFINE_CONSTANT;
    res
}

/// The S-box of the design: entry `i` is the affine step applied to `i` to the power
/// `S_BOX_EXPONENT` in GF(2^8).
pub fn generate_s_box() -> (s_box: [u8; 256])
    ensures
        forall|i: int| 0 <= i < 256 ==> #[trigger] s_box[i] == affine_spec(field_pow(i as u8, S_BOX_EXPONENT as nat)),
{
    let mut s_box: [u8; 256] = [0; 256];

    for i in 0..256usize
        invariant
            forall|j: int| 0 <= j < i ==> #[trigger] s_box[j] == affine_spec(field_pow(j as u8, S_BOX_EXPONENT as nat)),
    {
        let x = i as u8;
        let mut res: u8 = 1;
        for t in 0..S_BOX_EXPONENT
            invariant
                res == field_pow(x, t as nat),
        {
            res = field_multiply(res, x);
        }
        s_box[i] = affineTransform(res);
    }
    s_box
}

} // verus!
