use vstd::prelude::*;
use crate::consts::{AES_SBOX, INVERSE_AES_SBOX, RC};
use crate::utils::{addition_gf, gf_mul_spec, multiplication_gf};
use crate::gf::{
    gf_mul_by, lemma_column_inverse, lemma_column_inverse_rev, lemma_table_product_1, lemma_table_product_11,
    lemma_table_product_13, lemma_table_product_14, lemma_table_product_2, lemma_table_product_3,
    lemma_table_product_9,
};

verus! {

/// An AES state, read row by row: entry `4 * r + c` is row `r`, column `c`.
pub open spec fn state_seq(state: [[u8; 4]; 4]) -> Seq<u8> {
    Seq::new(16, |k: int| state[k / 4][k % 4])
}

/// The S-box (for encryption) or the inverse S-box, looked up by the two nibbles of `byte`.
pub open spec fn substitute_spec(byte: u8, encryption: bool) -> u8 {
    if encryption {
        AES_SBOX[((byte >> 4u8) & 0xFu8) as int][(byte & 0xFu8) as int]
    } else {
        INVERSE_AES_SBOX[((byte >> 4u8) & 0xFu8) as int][(byte & 0xFu8) as int]
    }
}

/// Every byte of the state through the S-box or its inverse.
pub open spec fn sub_bytes_spec(s: Seq<u8>, encryption: bool) -> Seq<u8> {
    Seq::new(16, |k: int| substitute_spec(s[k], encryption))
}

/// Row `r` rotated to the left by `r` places.
pub open spec fn shift_rows_spec(s: Seq<u8>) -> Seq<u8> {
    Seq::new(16, |k: int| s[4 * (k / 4) + (k % 4 + k / 4) % 4])
}

/// Row `r` rotated to the right by `r` places.
pub open spec fn inv_shift_rows_spec(s: Seq<u8>) -> Seq<u8> {
    Seq::new(16, |k: int| s[4 * (k / 4) + (k % 4 + 4 - k / 4) % 4])
}

/// Entry (`r`, `c`) after a column mix with coefficients `m`: the coefficient `m.0` goes with the
/// same row, `m.1`, `m.2`, `m.3` with the rows 1, 2, 3 places above (cyclically).
pub open spec fn mix_entry(s: Seq<u8>, r: int, c: int, m: (u8, u8, u8, u8)) -> u8 {
    gf_mul_spec(s[4 * r + c], m.0) ^ gf_mul_spec(s[4 * ((r + 3) % 4) + c], m.1) ^ gf_mul_spec(
        s[4 * ((r + 2) % 4) + c],
        m.2,
    ) ^ gf_mul_spec(s[4 * ((r + 1) % 4) + c], m.3)
}

/// MixColumns with the coefficients (2, 1, 1, 3).
pub open spec fn mix_columns_spec(s: Seq<u8>) -> Seq<u8> {
    Seq::new(16, |k: int| mix_entry(s, k / 4, k % 4, (2u8, 1u8, 1u8, 3u8)))
}

/// InvMixColumns with the coefficients (14, 9, 13, 11).
pub open spec fn inv_mix_columns_spec(s: Seq<u8>) -> Seq<u8> {
    Seq::new(16, |k: int| mix_entry(s, k / 4, k % 4, (14u8, 9u8, 13u8, 11u8)))
}

/// The state XOR-ed with the round key made of the four words `key`: word `c` is column `c`.
pub open spec fn add_round_key_spec(s: Seq<u8>, key: Seq<Seq<u8>>) -> Seq<u8> {
    Seq::new(16, |k: int| s[k] ^ key[k % 4][k / 4])
}

/// The word rotated by one byte to the left.
pub open spec fn rot_word_spec(w: Seq<u8>) -> Seq<u8> {
    Seq::new(4, |i: int| w[(i + 1) % 4])
}

/// Each byte of the word through the S-box.
pub open spec fn sub_word_spec(w: Seq<u8>) -> Seq<u8> {
    Seq::new(4, |i: int| substitute_spec(w[i], true))
}

/// The byte-wise XOR of two words.
pub open spec fn xor_words(a: Seq<u8>, b: Seq<u8>) -> Seq<u8> {
    Seq::new(4, |i: int| a[i] ^ b[i])
}

/// Word `i` of the AES-128 key schedule of `key`.
pub open spec fn key_word(key: Seq<u8>, i: nat) -> Seq<u8>
    decreases i,
{
    if i < 4 {
        key.subrange(4 * i as int, 4 * i as int + 4)
    } else if i % 4 == 0 {
        xor_words(
            xor_words(key_word(key, (i - 4) as nat), sub_word_spec(rot_word_spec(key_word(key, (i - 1) as nat)))),
            seq![RC[(i / 4) as int], 0u8, 0u8, 0u8],
        )
    } else {
        xor_words(key_word(key, (i - 4) as nat), key_word(key, (i - 1) as nat))
    }
}

/// The 44 words of the AES-128 key schedule of `key`.
pub open spec fn key_schedule_spec(key: Seq<u8>) -> Seq<Seq<u8>> {
    Seq::new(44, |i: int| key_word(key, i as nat))
}

/// The four words of round key `r`.
pub open spec fn round_key(words: Seq<Seq<u8>>, r: int) -> Seq<Seq<u8>> {
    words.subrange(4 * r, 4 * r + 4)
}

/// The state of a block: byte `i` goes to row `i % 4`, column `i / 4`.
pub open spec fn block_to_state(b: Seq<u8>) -> Seq<u8> {
    Seq::new(16, |k: int| b[4 * (k % 4) + k / 4])
}

/// The block of a state, column by column.
pub open spec fn state_to_block(s: Seq<u8>) -> Seq<u8> {
    Seq::new(16, |i: int| s[4 * (i % 4) + i / 4])
}

/// The state after rounds 1 to `n` of encryption, starting from `s`.
pub open spec fn aes_enc_rounds(s: Seq<u8>, words: Seq<Seq<u8>>, n: nat) -> Seq<u8>
    decreases n,
{
    if n == 0 {
        s
    } else {
        add_round_key_spec(
            mix_columns_spec(shift_rows_spec(sub_bytes_spec(aes_enc_rounds(s, words, (n - 1) as nat), true))),
            round_key(words, n as int),
        )
    }
}

/// AES-128 encryption of `b` with the key schedule `words`, MixColumns taken with the
/// logarithm-table product `gf_mul_spec`, which treats a 0 factor as 1; so decryption
/// undoes this encryption only when no zero byte enters or leaves MixColumns (see
/// `lemma_aes_decrypt_encrypt`).
#[verifier::opaque]
pub open spec fn aes_encrypt_spec(words: Seq<Seq<u8>>, b: Seq<u8>) -> Seq<u8> {
    let s = aes_enc_rounds(add_round_key_spec(block_to_state(b), round_key(words, 0)), words, 9);
    state_to_block(add_round_key_spec(shift_rows_spec(sub_bytes_spec(s, true)), round_key(words, 10)))
}

/// The state after the inverse rounds 9, 8, ..., 10 - n of decryption, starting from `s`.
pub open spec fn aes_dec_rounds(s: Seq<u8>, words: Seq<Seq<u8>>, n: nat) -> Seq<u8>
    decreases n,
{
    if n == 0 {
        s
    } else {
        sub_bytes_spec(
            inv_shift_rows_spec(
                inv_mix_columns_spec(
                    add_round_key_spec(aes_dec_rounds(s, words, (n - 1) as nat), round_key(words, 10 - n)),
                ),
            ),
            false,
        )
    }
}

/// AES-128 decryption of `b` with the key schedule `words`, InvMixColumns taken with the
/// logarithm-table product `gf_mul_spec`, which treats a 0 factor as 1; so it undoes
/// `aes_encrypt_spec` only under the condition of `lemma_aes_decrypt_encrypt`.
#[verifier::opaque]
pub open spec fn aes_decrypt_spec(words: Seq<Seq<u8>>, b: Seq<u8>) -> Seq<u8> {
    let s = sub_bytes_spec(
        inv_shift_rows_spec(add_round_key_spec(block_to_state(b), round_key(words, 10))),
        false,
    );
    state_to_block(add_round_key_spec(aes_dec_rounds(s, words, 9), round_key(words, 0)))
}

/// The words of a key schedule as sequences.
pub open spec fn words_seq(words: [[u8; 4]; 44]) -> Seq<Seq<u8>> {
    Seq::new(44, |i: int| words[i]@)
}

/// An AES-128 cipher with its expanded key.
pub struct AES128 {
    expanded_key: [[u8; 4]; 44],
}

impl View for AES128 {
    type V = Seq<Seq<u8>>;

    /// The 44 words of the key schedule.
    closed spec fn view(&self) -> Seq<Seq<u8>> {
        words_seq(self.expanded_key)
    }
}

proof fn lemma_nibbles(b: u8)
    ensures
        (b >> 4u8) & 0xFu8 == b / 16,
        b & 0xFu8 == b % 16,
{
    assert((b >> 4u8) & 0xFu8 == b / 16 && b & 0xFu8 == b % 16) by (bit_vector);
}

/// The S-box (`encryption`) or the inverse S-box applied to one byte.
pub fn substitute(byte: u8, encryption: bool) -> (r: u8)
    ensures
        r == substitute_spec(byte, encryption),
{
    proof {
        lemma_nibbles(byte);
    }
    let upper_nibble: usize;
    let lower_nibble: usize;
    upper_nibble = ((byte >> 4) & 0xF) as usize;
    lower_nibble = (byte & 0xF) as usize;
    if encryption == true {
        return AES_SBOX[upper_nibble][lower_nibble];
    } else {
        return INVERSE_AES_SBOX[upper_nibble][lower_nibble];
    }
}

/// The word rotated by one byte to the left.
fn rot_word(word: &[u8; 4]) -> (result: [u8; 4])
    ensures
        result@ == rot_word_spec(word@),
{
    let mut result = [0u8; 4];

    for i in 0..4
        invariant
            forall|j: int| 0 <= j < i ==> #[trigger] result[j] == word[(j + 1) % 4],
    {
        result[i] = word[(i + 1) % 4];
    }
    proof {
        assert(result@ =~= rot_word_spec(word@));
    }
    return result;
}

/// Each byte of the word through the S-box.
fn sub_word(word: &[u8; 4]) -> (result: [u8; 4])
    ensures
        result@ == sub_word_spec(word@),
{
    let mut result = [0u8; 4];

    for i in 0..4
        invariant
            forall|j: int| 0 <= j < i ==> #[trigger] result[j] == substitute_spec(word[j], true),
    {
        result[i] = substitute(word[i], true);
    }
    proof {
        assert(result@ =~= sub_word_spec(word@));
    }
    return result;
}

/// The round key `key`, word by word.
pub open spec fn key_words(key: [[u8; 4]; 4]) -> Seq<Seq<u8>> {
    Seq::new(4, |i: int| key[i]@)
}

/// AddRoundKey: XORs column `c` of the state with word `c` of the round key.
pub fn add_round_key(state: &mut [[u8; 4]; 4], key: &[[u8; 4]; 4])
    ensures
        state_seq(*final(state)) == add_round_key_spec(state_seq(*old(state)), key_words(*key)),
{
    let ghost old_state = *state;
    for i in 0..4
        invariant
            forall|r: int, c: int|
                0 <= r < 4 && 0 <= c < 4 ==> #[trigger] state[r][c] == if r < i {
                    old_state[r][c] ^ key[c][r]
                } else {
                    old_state[r][c]
                },
    {
        let mut row = state[i];
        for j in 0..4
            invariant
                i < 4,
                forall|c: int|
                    0 <= c < 4 ==> #[trigger] row[c] == if c < j {
                        old_state[i as int][c] ^ key[c][i as int]
                    } else {
                        old_state[i as int][c]
                    },
        {
            row[j] = row[j] ^ key[j][i];
        }
        state[i] = row;
    }
    proof {
        assert(state_seq(*state) =~= add_round_key_spec(state_seq(old_state), key_words(*key)));
    }
}

/// SubBytes: every byte of the state through the S-box.
pub fn sub_bytes(state: &mut [[u8; 4]; 4])
    ensures
        state_seq(*final(state)) == sub_bytes_spec(state_seq(*old(state)), true),
{
    let ghost old_state = *state;
    for i in 0..4
        invariant
            forall|r: int, c: int|
                0 <= r < 4 && 0 <= c < 4 ==> #[trigger] state[r][c] == if r < i {
                    substitute_spec(old_state[r][c], true)
                } else {
                    old_state[r][c]
                },
    {
        let mut row = state[i];
        for j in 0..4
            invariant
                i < 4,
                forall|c: int|
                    0 <= c < 4 ==> #[trigger] row[c] == if c < j {
                        substitute_spec(old_state[i as int][c], true)
                    } else {
                        old_state[i as int][c]
                    },
        {
            row[j] = substitute(row[j], true);
        }
        state[i] = row;
    }
    proof {
        assert(state_seq(*state) =~= sub_bytes_spec(state_seq(old_state), true));
    }
}

/// InvSubBytes: every byte of the state through the inverse S-box.
pub fn inv_sub_bytes(state: &mut [[u8; 4]; 4])
    ensures
        state_seq(*final(state)) == sub_bytes_spec(state_seq(*old(state)), false),
{
    let ghost old_state = *state;
    for i in 0..4
        invariant
            forall|r: int, c: int|
                0 <= r < 4 && 0 <= c < 4 ==> #[trigger] state[r][c] == if r < i {
                    substitute_spec(old_state[r][c], false)
                } else {
                    old_state[r][c]
                },
    {
        let mut row = state[i];
        for j in 0..4
            invariant
                i < 4,
                forall|c: int|
                    0 <= c < 4 ==> #[trigger] row[c] == if c < j {
                        substitute_spec(old_state[i as int][c], false)
                    } else {
                        old_state[i as int][c]
                    },
        {
            row[j] = substitute(row[j], false);
        }
        state[i] = row;
    }
    proof {
        assert(state_seq(*state) =~= sub_bytes_spec(state_seq(old_state), false));
    }
}

/// The entries of column `c` after a mix with coefficients `m`, from the column's bytes.
proof fn lemma_mix_column(s: Seq<u8>, c: int, t: [u8; 4], m: (u8, u8, u8, u8))
    requires
        s.len() == 16,
        0 <= c < 4,
        forall|r: int| 0 <= r < 4 ==> #[trigger] t[r] == s[4 * r + c],
    ensures
        mix_entry(s, 0, c, m) == gf_mul_spec(t[0], m.0) ^ gf_mul_spec(t[3], m.1) ^ gf_mul_spec(t[2], m.2) ^ gf_mul_spec(t[1], m.3),
        mix_entry(s, 1, c, m) == gf_mul_spec(t[1], m.0) ^ gf_mul_spec(t[0], m.1) ^ gf_mul_spec(t[3], m.2) ^ gf_mul_spec(t[2], m.3),
        mix_entry(s, 2, c, m) == gf_mul_spec(t[2], m.0) ^ gf_mul_spec(t[1], m.1) ^ gf_mul_spec(t[0], m.2) ^ gf_mul_spec(t[3], m.3),
        mix_entry(s, 3, c, m) == gf_mul_spec(t[3], m.0) ^ gf_mul_spec(t[2], m.1) ^ gf_mul_spec(t[1], m.2) ^ gf_mul_spec(t[0], m.3),
{
    assert(t[0] == s[c] && t[1] == s[4 + c] && t[2] == s[8 + c] && t[3] == s[12 + c]);
}

/// One column replaced in a state, the others kept.
pub open spec fn mixed_upto(s: Seq<u8>, old_state: [[u8; 4]; 4], state: [[u8; 4]; 4], i: int, m: (u8, u8, u8, u8)) -> bool {
    forall|r: int, c: int|
        0 <= r < 4 && 0 <= c < 4 ==> #[trigger] state[r][c] == if c < i {
            mix_entry(s, r, c, m)
        } else {
            old_state[r][c]
        }
}

/// MixColumns, each product taken with `multiplication_gf`.
pub fn mix_columns(state: &mut [[u8; 4]; 4])
    ensures
        state_seq(*final(state)) == mix_columns_spec(state_seq(*old(state))),
{
    let ghost old_state = *state;
    let ghost s = state_seq(old_state);
    for i in 0..4
        invariant
            s == state_seq(old_state),
            mixed_upto(s, old_state, *state, i as int, (2u8, 1u8, 1u8, 3u8)),
    {
        let mut temp = [0u8; 4];
        for j in 0..4
            invariant
                i < 4,
                mixed_upto(s, old_state, *state, i as int, (2u8, 1u8, 1u8, 3u8)),
                forall|r: int| 0 <= r < j ==> #[trigger] temp[r] == old_state[r][i as int],
        {
            temp[j] = state[j][i];
        }
        proof {
            lemma_mix_column(s, i as int, temp, (2u8, 1u8, 1u8, 3u8));
        }
        let ghost before = *state;
        state[0][i] = multiplication_gf(temp[0], 2) ^ multiplication_gf(temp[3], 1) ^ multiplication_gf(temp[2], 1) ^ multiplication_gf(temp[1], 3);
        state[1][i] = multiplication_gf(temp[1], 2) ^ multiplication_gf(temp[0], 1) ^ multiplication_gf(temp[3], 1) ^ multiplication_gf(temp[2], 3);
        state[2][i] = multiplication_gf(temp[2], 2) ^ multiplication_gf(temp[1], 1) ^ multiplication_gf(temp[0], 1) ^ multiplication_gf(temp[3], 3);
        state[3][i] = multiplication_gf(temp[3], 2) ^ multiplication_gf(temp[2], 1) ^ multiplication_gf(temp[1], 1) ^ multiplication_gf(temp[0], 3);
        proof {
            assert forall|r: int, c: int| 0 <= r < 4 && 0 <= c < 4 implies #[trigger] state[r][c] == if c < i + 1 {
                mix_entry(s, r, c, (2u8, 1u8, 1u8, 3u8))
            } else {
                old_state[r][c]
            } by {
                if c != i {
                    assert(state[r][c] == before[r][c]);
                }
            }
        }
    }
    proof {
        assert(state_seq(*state) =~= mix_columns_spec(s));
    }
}

/// InvMixColumns, each product taken with `multiplication_gf`.
pub fn inv_mix_columns(state: &mut [[u8; 4]; 4])
    ensures
        state_seq(*final(state)) == inv_mix_columns_spec(state_seq(*old(state))),
{
    let ghost old_state = *state;
    let ghost s = state_seq(old_state);
    for i in 0..4
        invariant
            s == state_seq(old_state),
            mixed_upto(s, old_state, *state, i as int, (14u8, 9u8, 13u8, 11u8)),
    {
        let mut temp = [0u8; 4];
        for j in 0..4
            invariant
                i < 4,
                mixed_upto(s, old_state, *state, i as int, (14u8, 9u8, 13u8, 11u8)),
                forall|r: int| 0 <= r < j ==> #[trigger] temp[r] == old_state[r][i as int],
        {
            temp[j] = state[j][i];
        }
        proof {
            lemma_mix_column(s, i as int, temp, (14u8, 9u8, 13u8, 11u8));
        }
        let ghost before = *state;
        state[0][i] = multiplication_gf(temp[0], 14) ^ multiplication_gf(temp[3], 9) ^ multiplication_gf(temp[2], 13) ^ multiplication_gf(temp[1], 11);
        state[1][i] = multiplication_gf(temp[1], 14) ^ multiplication_gf(temp[0], 9) ^ multiplication_gf(temp[3], 13) ^ multiplication_gf(temp[2], 11);
        state[2][i] = multiplication_gf(temp[2], 14) ^ multiplication_gf(temp[1], 9) ^ multiplication_gf(temp[0], 13) ^ multiplication_gf(temp[3], 11);
        state[3][i] = multiplication_gf(temp[3], 14) ^ multiplication_gf(temp[2], 9) ^ multiplication_gf(temp[1], 13) ^ multiplication_gf(temp[0], 11);
        proof {
            assert forall|r: int, c: int| 0 <= r < 4 && 0 <= c < 4 implies #[trigger] state[r][c] == if c < i + 1 {
                mix_entry(s, r, c, (14u8, 9u8, 13u8, 11u8))
            } else {
                old_state[r][c]
            } by {
                if c != i {
                    assert(state[r][c] == before[r][c]);
                }
            }
        }
    }
    proof {
        assert(state_seq(*state) =~= inv_mix_columns_spec(s));
    }
}

/// ShiftRows: row `r` rotated to the left by `r` places.
pub fn shift_rows(state: &mut [[u8; 4]; 4])
    ensures
        state_seq(*final(state)) == shift_rows_spec(state_seq(*old(state))),
{
    let ghost old_state = *state;
    for i in 1..4
        invariant
            forall|r: int, c: int|
                0 <= r < 4 && 0 <= c < 4 ==> #[trigger] state[r][c] == if r < i {
                    old_state[r][(c + r) % 4]
                } else {
                    old_state[r][c]
                },
    {
        let mut tmp = vec![0u8; i];
        for j in 0..i
            invariant
                1 <= i < 4,
                tmp.len() == i,
                forall|r: int, c: int|
                    0 <= r < 4 && 0 <= c < 4 ==> #[trigger] state[r][c] == if r < i {
                        old_state[r][(c + r) % 4]
                    } else {
                        old_state[r][c]
                    },
                forall|c: int| 0 <= c < j ==> #[trigger] tmp[c] == old_state[i as int][c],
        {
            tmp[j] = state[i][j];
        }
        for j in 0..4 - i
            invariant
                1 <= i < 4,
                tmp.len() == i,
                forall|r: int, c: int|
                    0 <= r < 4 && 0 <= c < 4 && r != i ==> #[trigger] state[r][c] == if r < i {
                        old_state[r][(c + r) % 4]
                    } else {
                        old_state[r][c]
                    },
                forall|c: int|
                    0 <= c < 4 ==> #[trigger] state[i as int][c] == if c < j {
                        old_state[i as int][c + i]
                    } else {
                        old_state[i as int][c]
                    },
                forall|c: int| 0 <= c < i ==> #[trigger] tmp[c] == old_state[i as int][c],
        {
            state[i][j] = state[i][j + i];
        }
        for j in 0..i
            invariant
                1 <= i < 4,
                tmp.len() == i,
                forall|r: int, c: int|
                    0 <= r < 4 && 0 <= c < 4 && r != i ==> #[trigger] state[r][c] == if r < i {
                        old_state[r][(c + r) % 4]
                    } else {
                        old_state[r][c]
                    },
                forall|c: int|
                    0 <= c < 4 ==> #[trigger] state[i as int][c] == if c < 4 - i {
                        old_state[i as int][c + i]
                    } else if c > 3 - j {
                        old_state[i as int][c + i - 4]
                    } else {
                        old_state[i as int][c]
                    },
                forall|c: int| 0 <= c < i ==> #[trigger] tmp[c] == old_state[i as int][c],
        {
            state[i][3 - j] = tmp[i - j - 1];
        }
        proof {
            assert forall|r: int, c: int| 0 <= r < 4 && 0 <= c < 4 implies #[trigger] state[r][c] == if r < i + 1 {
                old_state[r][(c + r) % 4]
            } else {
                old_state[r][c]
            } by {
                if r == i {
                    if c < 4 - i {
                        assert((c + r) % 4 == c + i);
                    } else {
                        assert((c + r) % 4 == c + i - 4);
                    }
                }
            }
        }
    }
    proof {
        assert forall|k: int| 0 <= k < 16 implies #[trigger] state_seq(*state)[k] == shift_rows_spec(state_seq(old_state))[k] by {
            let r = k / 4;
            let c = k % 4;
            if r == 0 {
                assert((c + r) % 4 == c);
            }
        }
        assert(state_seq(*state) =~= shift_rows_spec(state_seq(old_state)));
    }
}

/// InvShiftRows: row `r` rotated to the right by `r` places.
pub fn inv_shift_rows(state: &mut [[u8; 4]; 4])
    ensures
        state_seq(*final(state)) == inv_shift_rows_spec(state_seq(*old(state))),
{
    let ghost old_state = *state;
    for t in 0..3usize
        invariant
            forall|r: int, c: int|
                0 <= r < 4 && 0 <= c < 4 ==> #[trigger] state[r][c] == if 1 <= r <= t {
                    old_state[r][(c + 4 - r) % 4]
                } else {
                    old_state[r][c]
                },
    {
        let i = 3 - t;
        let mut tmp = vec![0u8; i];
        for j in 0..i
            invariant
                1 <= i <= 3,
                i == 3 - t,
                tmp.len() == i,
                forall|r: int, c: int|
                    0 <= r < 4 && 0 <= c < 4 ==> #[trigger] state[r][c] == if 1 <= r <= t {
                        old_state[r][(c + 4 - r) % 4]
                    } else {
                        old_state[r][c]
                    },
                forall|c: int| 0 <= c < j ==> #[trigger] tmp[c] == old_state[4 - i][c],
        {
            tmp[j] = state[4 - i][j];
        }
        for j in 0..4 - i
            invariant
                1 <= i <= 3,
                i == 3 - t,
                tmp.len() == i,
                forall|r: int, c: int|
                    0 <= r < 4 && 0 <= c < 4 && r != 4 - i ==> #[trigger] state[r][c] == if 1 <= r <= t {
                        old_state[r][(c + 4 - r) % 4]
                    } else {
                        old_state[r][c]
                    },
                forall|c: int|
                    0 <= c < 4 ==> #[trigger] state[4 - i][c] == if c < j {
                        old_state[4 - i][c + i]
                    } else {
                        old_state[4 - i][c]
                    },
                forall|c: int| 0 <= c < i ==> #[trigger] tmp[c] == old_state[4 - i][c],
        {
            state[4 - i][j] = state[4 - i][j + i];
        }
        for j in 0..i
            invariant
                1 <= i <= 3,
                i == 3 - t,
                tmp.len() == i,
                forall|r: int, c: int|
                    0 <= r < 4 && 0 <= c < 4 && r != 4 - i ==> #[trigger] state[r][c] == if 1 <= r <= t {
                        old_state[r][(c + 4 - r) % 4]
                    } else {
                        old_state[r][c]
                    },
                forall|c: int|
                    0 <= c < 4 ==> #[trigger] state[4 - i][c] == if c < 4 - i {
                        old_state[4 - i][c + i]
                    } else if c > 3 - j {
                        old_state[4 - i][c + i - 4]
                    } else {
                        old_state[4 - i][c]
                    },
                forall|c: int| 0 <= c < i ==> #[trigger] tmp[c] == old_state[4 - i][c],
        {
            state[4 - i][3 - j] = tmp[i - j - 1];
        }
        proof {
            assert forall|r: int, c: int| 0 <= r < 4 && 0 <= c < 4 implies #[trigger] state[r][c] == if 1 <= r <= t + 1 {
                old_state[r][(c + 4 - r) % 4]
            } else {
                old_state[r][c]
            } by {
                if r == 4 - i {
                    if c < 4 - i {
                        assert((c + 4 - r) % 4 == c + i);
                    } else {
                        assert((c + 4 - r) % 4 == c + i - 4);
                    }
                }
            }
        }
    }
    proof {
        assert forall|k: int| 0 <= k < 16 implies #[trigger] state_seq(*state)[k] == inv_shift_rows_spec(state_seq(old_state))[k] by {
            let r = k / 4;
            let c = k % 4;
            if r == 0 {
                assert((c + 4 - r) % 4 == c);
            }
        }
        assert(state_seq(*state) =~= inv_shift_rows_spec(state_seq(old_state)));
    }
}

/// The four words of `slice` as an array.
fn clone_into_array(slice: &[[u8; 4]]) -> (a: [[u8; 4]; 4])
    requires
        slice@.len() == 4,
    ensures
        a@ == slice@,
{
    let mut a = [[0u8; 4]; 4];
    for i in 0..4
        invariant
            slice@.len() == 4,
            forall|j: int| 0 <= j < i ==> #[trigger] a[j] == slice@[j],
    {
        a[i] = slice[i];
    }
    proof {
        assert(a@ =~= slice@);
    }
    a
}

/// The AES-128 key schedule: 44 words, four per round key.
#[allow(non_snake_case)]
fn key_schedule_AES128(key_bytes: &[u8; 16]) -> (expanded: [[u8; 4]; 44])
    ensures
        words_seq(expanded) == key_schedule_spec(key_bytes@),
{
    let mut cipher_key = [[0u8; 4]; 4];
    let mut expanded_key = [[0u8; 4]; 44];
    let N: usize = 4;

    for i in 0..16
        invariant
            forall|r: int, c: int|
                0 <= r < 4 && 0 <= c < 4 ==> #[trigger] cipher_key[r][c] == if 4 * r + c < i {
                    key_bytes[4 * r + c]
                } else {
                    0
                },
    {
        cipher_key[i / 4][i % 4] = key_bytes[i];
    }

    for i in 0..44
        invariant
            N == 4,
            forall|r: int, c: int|
                0 <= r < 4 && 0 <= c < 4 ==> #[trigger] cipher_key[r][c] == key_bytes[4 * r + c],
            forall|j: int| 0 <= j < i ==> #[trigger] expanded_key[j]@ == key_word(key_bytes@, j as nat),
    {
        if i < N {
            expanded_key[i] = cipher_key[i];
            proof {
                assert(expanded_key[i as int]@ =~= key_word(key_bytes@, i as nat));
            }
        } else if i >= N && i % N == 0 {
            let mut rcon = [0u8; 4];
            rcon[0] = RC[i / N];
            let rotated = rot_word(&expanded_key[i - 1]);
            let substituted = sub_word(&rotated);
            let first = addition_gf(&expanded_key[i - N], &substituted);
            expanded_key[i] = addition_gf(&first, &rcon);
            proof {
                assert(rcon@ =~= seq![RC[(i / 4) as int], 0u8, 0u8, 0u8]);
                assert(first@ =~= xor_words(key_word(key_bytes@, (i - 4) as nat), sub_word_spec(rot_word_spec(key_word(key_bytes@, (i - 1) as nat)))));
                assert(expanded_key[i as int]@ =~= key_word(key_bytes@, i as nat));
            }
        } else {
            expanded_key[i] = addition_gf(&expanded_key[i - N], &expanded_key[i - 1]);
            proof {
                assert(expanded_key[i as int]@ =~= key_word(key_bytes@, i as nat));
            }
        }
    }
    proof {
        assert(words_seq(expanded_key) =~= key_schedule_spec(key_bytes@));
    }
    return expanded_key;
}

impl AES128 {
    /// The cipher for the 16-byte key `key`.
    pub fn new(key: &[u8; 16]) -> (r: AES128)
        ensures
            r@ == key_schedule_spec(key@),
    {
        return AES128 { expanded_key: key_schedule_AES128(key) };
    }

    /// Decrypts one 16-byte block.
    #[allow(non_snake_case)]
    pub fn decrypt_block_AES128(&self, bytes: &[u8; 16]) -> (res: [u8; 16])
        ensures
            res@ == aes_decrypt_spec(self@, bytes@),
    {
        proof {
            reveal(aes_decrypt_spec);
            reveal(aes_encrypt_spec);
        }
        let ghost words = self@;
        let mut result = [0u8; 16];

        let mut state = [[0u8; 4]; 4];
        for i in 0..16
            invariant
                forall|r: int, c: int|
                    0 <= r < 4 && 0 <= c < 4 ==> #[trigger] state[r][c] == if 4 * c + r < i {
                        bytes[4 * c + r]
                    } else {
                        0
                    },
        {
            state[i % 4][i / 4] = bytes[i];
        }
        proof {
            assert(state_seq(state) =~= block_to_state(bytes@));
        }

        let key = clone_into_array(&self.expanded_key[40..44]);
        proof {
            assert(key_words(key) =~= round_key(words, 10));
        }
        add_round_key(&mut state, &key);
        inv_shift_rows(&mut state);
        inv_sub_bytes(&mut state);
        let ghost s0 = state_seq(state);

        for t in 0..9usize
            invariant
                words == self@,
                state_seq(state) == aes_dec_rounds(s0, words, t as nat),
        {
            let i = 9 - t;
            let key = clone_into_array(&self.expanded_key[i * 4..(i + 1) * 4]);
            proof {
                assert(key_words(key) =~= round_key(words, i as int));
            }
            add_round_key(&mut state, &key);
            inv_mix_columns(&mut state);
            inv_shift_rows(&mut state);
            inv_sub_bytes(&mut state);
        }

        let key = clone_into_array(&self.expanded_key[0..4]);
        proof {
            assert(key_words(key) =~= round_key(words, 0));
        }
        add_round_key(&mut state, &key);
        let ghost fin = state_seq(state);

        for i in 0..4
            invariant
                fin == state_seq(state),
                forall|m: int| 0 <= m < 16 ==> #[trigger] result[m] == if m % 4 < i {
                    fin[4 * (m % 4) + m / 4]
                } else {
                    0
                },
        {
            for j in 0..4
                invariant
                    i < 4,
                    fin == state_seq(state),
                    forall|m: int| 0 <= m < 16 ==> #[trigger] result[m] == if m % 4 < i || (m % 4 == i && m / 4 < j) {
                        fin[4 * (m % 4) + m / 4]
                    } else {
                        0
                    },
            {
                result[4 * j + i] = state[i][j];
            }
        }
        proof {
            assert(result@ =~= state_to_block(fin));
        }

        return result;
    }

    /// Encrypts one 16-byte block.
    #[allow(non_snake_case)]
    pub fn encrypt_block_AES128(&self, bytes: &[u8; 16]) -> (res: [u8; 16])
        ensures
            res@ == aes_encrypt_spec(self@, bytes@),
    {
        proof {
            reveal(aes_decrypt_spec);
            reveal(aes_encrypt_spec);
        }
        let ghost words = self@;
        let mut result = [0u8; 16];

        let mut state = [[0u8; 4]; 4];
        for i in 0..16
            invariant
                forall|r: int, c: int|
                    0 <= r < 4 && 0 <= c < 4 ==> #[trigger] state[r][c] == if 4 * c + r < i {
                        bytes[4 * c + r]
                    } else {
                        0
                    },
        {
            state[i % 4][i / 4] = bytes[i];
        }
        proof {
            assert(state_seq(state) =~= block_to_state(bytes@));
        }

        let key = clone_into_array(&self.expanded_key[0..4]);
        proof {
            assert(key_words(key) =~= round_key(words, 0));
        }
        add_round_key(&mut state, &key);
        let ghost s0 = state_seq(state);

        for i in 1..10usize
            invariant
                words == self@,
                state_seq(state) == aes_enc_rounds(s0, words, (i - 1) as nat),
        {
            sub_bytes(&mut state);
            shift_rows(&mut state);
            mix_columns(&mut state);
            let key = clone_into_array(&self.expanded_key[i * 4..(i + 1) * 4]);
            proof {
                assert(key_words(key) =~= round_key(words, i as int));
            }
            add_round_key(&mut state, &key);
        }

        sub_bytes(&mut state);
        shift_rows(&mut state);
        let key = clone_into_array(&self.expanded_key[40..44]);
        proof {
            assert(key_words(key) =~= round_key(words, 10));
        }
        add_round_key(&mut state, &key);
        let ghost fin = state_seq(state);

        for i in 0..4
            invariant
                fin == state_seq(state),
                forall|m: int| 0 <= m < 16 ==> #[trigger] result[m] == if m % 4 < i {
                    fin[4 * (m % 4) + m / 4]
                } else {
                    0
                },
        {
            for j in 0..4
                invariant
                    i < 4,
                    fin == state_seq(state),
                    forall|m: int| 0 <= m < 16 ==> #[trigger] result[m] == if m % 4 < i || (m % 4 == i && m / 4 < j) {
                        fin[4 * (m % 4) + m / 4]
                    } else {
                        0
                    },
            {
                result[4 * j + i] = state[i][j];
            }
        }
        proof {
            assert(result@ =~= state_to_block(fin));
        }

        return result;
    }
}

/// The inverse S-box undoes the S-box on every byte.
pub proof fn lemma_inv_substitute(b: u8)
    ensures
        substitute_spec(substitute_spec(b, true), false) == b,
{
    assert(forall|i: int|
        0 <= i < 256 ==> #[trigger] INVERSE_AES_SBOX[AES_SBOX[i / 16][i % 16] as int / 16][AES_SBOX[i
            / 16][i % 16] as int % 16] == i);
    lemma_nibbles(b);
    lemma_nibbles(substitute_spec(b, true));
    let i = b as int;
    assert(INVERSE_AES_SBOX[AES_SBOX[i / 16][i % 16] as int / 16][AES_SBOX[i / 16][i % 16] as int
        % 16] == i);
}

/// The S-box is one-to-one on bytes.
pub proof fn lemma_substitute_injective(a: u8, b: u8)
    ensures
        substitute_spec(a, true) == substitute_spec(b, true) ==> a == b,
{
    lemma_inv_substitute(a);
    lemma_inv_substitute(b);
}

/// InvSubBytes undoes SubBytes.
pub proof fn lemma_inv_sub_bytes(s: Seq<u8>)
    requires
        s.len() == 16,
    ensures
        sub_bytes_spec(sub_bytes_spec(s, true), false) == s,
{
    assert forall|k: int| 0 <= k < 16 implies #[trigger] sub_bytes_spec(sub_bytes_spec(s, true), false)[k] == s[k] by {
        lemma_inv_substitute(s[k]);
    }
    assert(sub_bytes_spec(sub_bytes_spec(s, true), false) =~= s);
}

/// InvShiftRows undoes ShiftRows.
pub proof fn lemma_inv_shift_rows(s: Seq<u8>)
    requires
        s.len() == 16,
    ensures
        inv_shift_rows_spec(shift_rows_spec(s)) == s,
{
    assert forall|k: int| 0 <= k < 16 implies #[trigger] inv_shift_rows_spec(shift_rows_spec(s))[k] == s[k] by {
        let r = k / 4;
        let c = k % 4;
        let c2 = (c + 4 - r) % 4;
        assert((c2 + r) % 4 == c);
    }
    assert(inv_shift_rows_spec(shift_rows_spec(s)) =~= s);
}

/// The S-box undoes the inverse S-box on every byte, so the S-box is a permutation of
/// the bytes.
pub proof fn lemma_substitute_inv(b: u8)
    ensures
        substitute_spec(substitute_spec(b, false), true) == b,
{
    assert(forall|i: int|
        0 <= i < 256 ==> #[trigger] AES_SBOX[INVERSE_AES_SBOX[i / 16][i % 16] as int / 16][INVERSE_AES_SBOX[i
            / 16][i % 16] as int % 16] == i);
    lemma_nibbles(b);
    lemma_nibbles(substitute_spec(b, false));
    let i = b as int;
    assert(AES_SBOX[INVERSE_AES_SBOX[i / 16][i % 16] as int / 16][INVERSE_AES_SBOX[i / 16][i % 16] as int
        % 16] == i);
}

/// SubBytes undoes InvSubBytes.
pub proof fn lemma_sub_bytes_inv(s: Seq<u8>)
    requires
        s.len() == 16,
    ensures
        sub_bytes_spec(sub_bytes_spec(s, false), true) == s,
{
    assert forall|k: int| 0 <= k < 16 implies #[trigger] sub_bytes_spec(sub_bytes_spec(s, false), true)[k] == s[k] by {
        lemma_substitute_inv(s[k]);
    }
    assert(sub_bytes_spec(sub_bytes_spec(s, false), true) =~= s);
}

/// ShiftRows undoes InvShiftRows.
pub proof fn lemma_shift_rows_inv(s: Seq<u8>)
    requires
        s.len() == 16,
    ensures
        shift_rows_spec(inv_shift_rows_spec(s)) == s,
{
    assert forall|k: int| 0 <= k < 16 implies #[trigger] shift_rows_spec(inv_shift_rows_spec(s))[k] == s[k] by {
        let r = k / 4;
        let c = k % 4;
        let c2 = (c + r) % 4;
        assert((c2 + 4 - r) % 4 == c);
    }
    assert(shift_rows_spec(inv_shift_rows_spec(s)) =~= s);
}

/// Adding the same round key twice gives back the state.
pub proof fn lemma_add_round_key_twice(s: Seq<u8>, key: Seq<Seq<u8>>)
    requires
        s.len() == 16,
    ensures
        add_round_key_spec(add_round_key_spec(s, key), key) == s,
{
    assert forall|k: int| 0 <= k < 16 implies #[trigger] add_round_key_spec(add_round_key_spec(s, key), key)[k] == s[k] by {
        let a = s[k];
        let b = key[k % 4][k / 4];
        assert((a ^ b) ^ b == a) by (bit_vector);
    }
    assert(add_round_key_spec(add_round_key_spec(s, key), key) =~= s);
}

/// Reading a block into a state and writing it back, in either order, changes nothing.
proof fn lemma_block_state(b: Seq<u8>, st: Seq<u8>)
    requires
        b.len() == 16,
        st.len() == 16,
    ensures
        state_to_block(block_to_state(b)) == b,
        block_to_state(state_to_block(st)) == st,
{
    assert forall|i: int| 0 <= i < 16 implies #[trigger] state_to_block(block_to_state(b))[i] == b[i] by {
        let k = 4 * (i % 4) + i / 4;
        assert(4 * (k % 4) + k / 4 == i);
    }
    assert forall|k: int| 0 <= k < 16 implies #[trigger] block_to_state(state_to_block(st))[k] == st[k] by {
        let i = 4 * (k % 4) + k / 4;
        assert(4 * (i % 4) + i / 4 == k);
    }
    assert(state_to_block(block_to_state(b)) =~= b);
    assert(block_to_state(state_to_block(st)) =~= st);
}


/// Column `c` of InvMixColumns after MixColumns is column `c` of the state, when the bytes
/// of that column, before and after MixColumns, are nonzero.
proof fn lemma_inv_mix_column(s: Seq<u8>, c: int)
    requires
        s.len() == 16,
        0 <= c < 4,
        forall|r: int| 0 <= r < 4 ==> #[trigger] s[4 * r + c] != 0,
        forall|r: int| 0 <= r < 4 ==> #[trigger] mix_columns_spec(s)[4 * r + c] != 0,
    ensures
        forall|r: int| 0 <= r < 4 ==> #[trigger] inv_mix_columns_spec(mix_columns_spec(s))[4 * r + c] == s[4 * r + c],
{
    let t = mix_columns_spec(s);
    let u = inv_mix_columns_spec(t);
    let (x0, x1, x2, x3) = (s[c], s[4 + c], s[8 + c], s[12 + c]);
    assert(s[4 * 0 + c] != 0 && s[4 * 1 + c] != 0 && s[4 * 2 + c] != 0 && s[4 * 3 + c] != 0);
    assert(t[4 * 0 + c] != 0 && t[4 * 1 + c] != 0 && t[4 * 2 + c] != 0 && t[4 * 3 + c] != 0);
    let (y0, y1, y2, y3) = (t[c], t[4 + c], t[8 + c], t[12 + c]);
    lemma_table_product_1();
    lemma_table_product_2();
    lemma_table_product_3();
    lemma_table_product_9();
    lemma_table_product_11();
    lemma_table_product_13();
    lemma_table_product_14();
    assert(y0 == gf_mul_by(x0, 2u8) ^ gf_mul_by(x3, 1u8) ^ gf_mul_by(x2, 1u8) ^ gf_mul_by(x1, 3u8));
    assert(y1 == gf_mul_by(x1, 2u8) ^ gf_mul_by(x0, 1u8) ^ gf_mul_by(x3, 1u8) ^ gf_mul_by(x2, 3u8));
    assert(y2 == gf_mul_by(x2, 2u8) ^ gf_mul_by(x1, 1u8) ^ gf_mul_by(x0, 1u8) ^ gf_mul_by(x3, 3u8));
    assert(y3 == gf_mul_by(x3, 2u8) ^ gf_mul_by(x2, 1u8) ^ gf_mul_by(x1, 1u8) ^ gf_mul_by(x0, 3u8));
    lemma_column_inverse(x0, x1, x2, x3, y0, y1, y2, y3);
    assert(u[c] == x0);
    assert(u[4 + c] == x1);
    assert(u[8 + c] == x2);
    assert(u[12 + c] == x3);
}

/// InvMixColumns undoes MixColumns on a state whose bytes are nonzero and stay nonzero
/// under MixColumns. (A zero byte breaks it: the table product of 0 is not 0.)
pub proof fn lemma_inv_mix_columns(s: Seq<u8>)
    requires
        s.len() == 16,
        forall|k: int| 0 <= k < 16 ==> #[trigger] s[k] != 0,
        forall|k: int| 0 <= k < 16 ==> #[trigger] mix_columns_spec(s)[k] != 0,
    ensures
        inv_mix_columns_spec(mix_columns_spec(s)) == s,
{
    let u = inv_mix_columns_spec(mix_columns_spec(s));
    assert forall|k: int| 0 <= k < 16 implies #[trigger] u[k] == s[k] by {
        let c = k % 4;
        let r = k / 4;
        assert(k == 4 * r + c);
        assert forall|i: int| 0 <= i < 4 implies #[trigger] s[4 * i + c] != 0 && mix_columns_spec(s)[4 * i + c] != 0 by {
            assert(0 <= 4 * i + c < 16);
        }
        lemma_inv_mix_column(s, c);
        assert(u[4 * r + c] == s[4 * r + c]);
    }
    assert(u =~= s);
}

/// Column `c` of MixColumns after InvMixColumns is column `c` of the state, when the bytes
/// of that column, before and after InvMixColumns, are nonzero.
proof fn lemma_mix_inv_column(s: Seq<u8>, c: int)
    requires
        s.len() == 16,
        0 <= c < 4,
        forall|r: int| 0 <= r < 4 ==> #[trigger] s[4 * r + c] != 0,
        forall|r: int| 0 <= r < 4 ==> #[trigger] inv_mix_columns_spec(s)[4 * r + c] != 0,
    ensures
        forall|r: int| 0 <= r < 4 ==> #[trigger] mix_columns_spec(inv_mix_columns_spec(s))[4 * r + c] == s[4 * r + c],
{
    let t = inv_mix_columns_spec(s);
    let u = mix_columns_spec(t);
    let (x0, x1, x2, x3) = (s[c], s[4 + c], s[8 + c], s[12 + c]);
    assert(s[4 * 0 + c] != 0 && s[4 * 1 + c] != 0 && s[4 * 2 + c] != 0 && s[4 * 3 + c] != 0);
    assert(t[4 * 0 + c] != 0 && t[4 * 1 + c] != 0 && t[4 * 2 + c] != 0 && t[4 * 3 + c] != 0);
    let (y0, y1, y2, y3) = (t[c], t[4 + c], t[8 + c], t[12 + c]);
    lemma_table_product_1();
    lemma_table_product_2();
    lemma_table_product_3();
    lemma_table_product_9();
    lemma_table_product_11();
    lemma_table_product_13();
    lemma_table_product_14();
    assert(y0 == gf_mul_by(x0, 14u8) ^ gf_mul_by(x3, 9u8) ^ gf_mul_by(x2, 13u8) ^ gf_mul_by(x1, 11u8));
    assert(y1 == gf_mul_by(x1, 14u8) ^ gf_mul_by(x0, 9u8) ^ gf_mul_by(x3, 13u8) ^ gf_mul_by(x2, 11u8));
    assert(y2 == gf_mul_by(x2, 14u8) ^ gf_mul_by(x1, 9u8) ^ gf_mul_by(x0, 13u8) ^ gf_mul_by(x3, 11u8));
    assert(y3 == gf_mul_by(x3, 14u8) ^ gf_mul_by(x2, 9u8) ^ gf_mul_by(x1, 13u8) ^ gf_mul_by(x0, 11u8));
    lemma_column_inverse_rev(x0, x1, x2, x3, y0, y1, y2, y3);
    assert(u[c] == x0);
    assert(u[4 + c] == x1);
    assert(u[8 + c] == x2);
    assert(u[12 + c] == x3);
}

/// MixColumns undoes InvMixColumns on a state whose bytes are nonzero and stay nonzero
/// under InvMixColumns.
pub proof fn lemma_mix_columns_inv(s: Seq<u8>)
    requires
        s.len() == 16,
        forall|k: int| 0 <= k < 16 ==> #[trigger] s[k] != 0,
        forall|k: int| 0 <= k < 16 ==> #[trigger] inv_mix_columns_spec(s)[k] != 0,
    ensures
        mix_columns_spec(inv_mix_columns_spec(s)) == s,
{
    let u = mix_columns_spec(inv_mix_columns_spec(s));
    assert forall|k: int| 0 <= k < 16 implies #[trigger] u[k] == s[k] by {
        let c = k % 4;
        let r = k / 4;
        assert(k == 4 * r + c);
        assert forall|i: int| 0 <= i < 4 implies #[trigger] s[4 * i + c] != 0 && inv_mix_columns_spec(s)[4 * i + c] != 0 by {
            assert(0 <= 4 * i + c < 16);
        }
        lemma_mix_inv_column(s, c);
        assert(u[4 * r + c] == s[4 * r + c]);
    }
    assert(u =~= s);
}

/// The state that enters MixColumns in encryption round `n + 1`.
pub open spec fn mix_input(s0: Seq<u8>, words: Seq<Seq<u8>>, n: nat) -> Seq<u8> {
    shift_rows_spec(sub_bytes_spec(aes_enc_rounds(s0, words, n), true))
}

/// The state after the initial round key of encryption.
pub open spec fn aes_initial_state(words: Seq<Seq<u8>>, b: Seq<u8>) -> Seq<u8> {
    add_round_key_spec(block_to_state(b), round_key(words, 0))
}

proof fn lemma_enc_rounds_len(s0: Seq<u8>, words: Seq<Seq<u8>>, n: nat)
    requires
        s0.len() == 16,
    ensures
        aes_enc_rounds(s0, words, n).len() == 16,
    decreases n,
{
    if n > 0 {
        lemma_enc_rounds_len(s0, words, (n - 1) as nat);
    }
}

/// After `n` inverse rounds, decryption holds the encryption state of round `9 - n`.
proof fn lemma_dec_rounds(s0: Seq<u8>, words: Seq<Seq<u8>>, n: nat)
    requires
        s0.len() == 16,
        n <= 9,
        forall|j: nat| j < 9 ==> #[trigger] inv_mix_columns_spec(mix_columns_spec(mix_input(s0, words, j))) == mix_input(s0, words, j),
    ensures
        aes_dec_rounds(aes_enc_rounds(s0, words, 9), words, n) == aes_enc_rounds(s0, words, (9 - n) as nat),
    decreases n,
{
    if n > 0 {
        lemma_dec_rounds(s0, words, (n - 1) as nat);
        let j = (9 - n) as nat;
        let prev = aes_enc_rounds(s0, words, j);
        lemma_enc_rounds_len(s0, words, j);
        let x = mix_input(s0, words, j);
        assert(aes_enc_rounds(s0, words, j + 1) == add_round_key_spec(mix_columns_spec(x), round_key(words, (j + 1) as int)));
        lemma_add_round_key_twice(mix_columns_spec(x), round_key(words, (j + 1) as int));
        lemma_inv_shift_rows(sub_bytes_spec(prev, true));
        lemma_inv_sub_bytes(prev);
    }
}

/// Decryption gives back the block that encryption was given whenever, in each of the
/// nine middle rounds, InvMixColumns undoes MixColumns on the state that MixColumns
/// received. (The GF(2^8) product of the tables is not 0 when a factor is 0, so
/// InvMixColumns does not undo MixColumns on every state.)
pub proof fn lemma_aes_decrypt_encrypt(words: Seq<Seq<u8>>, b: Seq<u8>)
    requires
        b.len() == 16,
        forall|j: nat| j < 9 ==> #[trigger] inv_mix_columns_spec(mix_columns_spec(mix_input(aes_initial_state(words, b), words, j))) == mix_input(aes_initial_state(words, b), words, j),
    ensures
        aes_decrypt_spec(words, aes_encrypt_spec(words, b)) == b,
{
    reveal(aes_decrypt_spec);
    reveal(aes_encrypt_spec);
    let s0 = aes_initial_state(words, b);
    let s9 = aes_enc_rounds(s0, words, 9);
    lemma_enc_rounds_len(s0, words, 9);
    let last = add_round_key_spec(shift_rows_spec(sub_bytes_spec(s9, true)), round_key(words, 10));
    lemma_block_state(b, last);
    lemma_add_round_key_twice(shift_rows_spec(sub_bytes_spec(s9, true)), round_key(words, 10));
    lemma_inv_shift_rows(sub_bytes_spec(s9, true));
    lemma_inv_sub_bytes(s9);
    lemma_dec_rounds(s0, words, 9);
    lemma_add_round_key_twice(block_to_state(b), round_key(words, 0));
}


/// Decryption gives back the block that encryption was given when, in each of the nine
/// middle rounds, no byte that enters MixColumns and no byte that leaves it is 0.
pub proof fn lemma_aes_decrypt_encrypt_nonzero(words: Seq<Seq<u8>>, b: Seq<u8>)
    requires
        b.len() == 16,
        forall|j: nat, k: int| j < 9 && 0 <= k < 16 ==> #[trigger] mix_input(aes_initial_state(words, b), words, j)[k] != 0,
        forall|j: nat, k: int| j < 9 && 0 <= k < 16 ==> #[trigger] mix_columns_spec(mix_input(aes_initial_state(words, b), words, j))[k] != 0,
    ensures
        aes_decrypt_spec(words, aes_encrypt_spec(words, b)) == b,
{
    let s0 = aes_initial_state(words, b);
    assert forall|j: nat| j < 9 implies #[trigger] inv_mix_columns_spec(mix_columns_spec(mix_input(s0, words, j))) == mix_input(s0, words, j) by {
        let x = mix_input(s0, words, j);
        assert forall|k: int| 0 <= k < 16 implies #[trigger] x[k] != 0 && mix_columns_spec(x)[k] != 0 by {
            assert(mix_input(s0, words, j)[k] != 0);
            assert(mix_columns_spec(mix_input(s0, words, j))[k] != 0);
        }
        lemma_inv_mix_columns(x);
    }
    lemma_aes_decrypt_encrypt(words, b);
}

/// The state that enters InvMixColumns in decryption round `n + 1`.
pub open spec fn inv_mix_input(d0: Seq<u8>, words: Seq<Seq<u8>>, n: nat) -> Seq<u8> {
    add_round_key_spec(aes_dec_rounds(d0, words, n), round_key(words, 9 - n))
}

/// The state after the first inverse round of decryption (the last round key, InvShiftRows
/// and InvSubBytes).
pub open spec fn aes_dec_initial_state(words: Seq<Seq<u8>>, b: Seq<u8>) -> Seq<u8> {
    sub_bytes_spec(inv_shift_rows_spec(add_round_key_spec(block_to_state(b), round_key(words, 10))), false)
}

/// After `j` encryption rounds from the end of decryption, encryption holds the
/// decryption state of round `9 - j`.
proof fn lemma_enc_rounds_of_dec(d0: Seq<u8>, words: Seq<Seq<u8>>, j: nat)
    requires
        d0.len() == 16,
        j <= 9,
        forall|n: nat| n < 9 ==> #[trigger] mix_columns_spec(inv_mix_columns_spec(inv_mix_input(d0, words, n))) == inv_mix_input(d0, words, n),
    ensures
        aes_enc_rounds(aes_dec_rounds(d0, words, 9), words, j) == aes_dec_rounds(d0, words, (9 - j) as nat),
    decreases j,
{
    if j > 0 {
        lemma_enc_rounds_of_dec(d0, words, (j - 1) as nat);
        let n = (9 - j) as nat;
        let y = inv_mix_input(d0, words, n);
        let prev = aes_dec_rounds(d0, words, n + 1);
        assert(prev == sub_bytes_spec(inv_shift_rows_spec(inv_mix_columns_spec(y)), false));
        lemma_sub_bytes_inv(inv_shift_rows_spec(inv_mix_columns_spec(y)));
        lemma_shift_rows_inv(inv_mix_columns_spec(y));
        assert(mix_columns_spec(inv_mix_columns_spec(y)) == y);
        assert((j - 1) as nat + 1 == j);
        assert(round_key(words, j as int) == round_key(words, 9 - n));
        if n == 0 {
            lemma_add_round_key_twice(d0, round_key(words, 9 - n));
        } else {
            lemma_add_round_key_twice(aes_dec_rounds(d0, words, n), round_key(words, 9 - n));
        }
    }
}

/// Encryption gives back the block that decryption was given whenever, in each of the
/// nine middle rounds, MixColumns undoes InvMixColumns on the state that InvMixColumns
/// received.
pub proof fn lemma_aes_encrypt_decrypt(words: Seq<Seq<u8>>, b: Seq<u8>)
    requires
        b.len() == 16,
        forall|n: nat| n < 9 ==> #[trigger] mix_columns_spec(inv_mix_columns_spec(inv_mix_input(aes_dec_initial_state(words, b), words, n))) == inv_mix_input(aes_dec_initial_state(words, b), words, n),
    ensures
        aes_encrypt_spec(words, aes_decrypt_spec(words, b)) == b,
{
    reveal(aes_decrypt_spec);
    reveal(aes_encrypt_spec);
    let d0 = aes_dec_initial_state(words, b);
    let d9 = aes_dec_rounds(d0, words, 9);
    let out = add_round_key_spec(d9, round_key(words, 0));
    lemma_block_state(b, out);
    lemma_add_round_key_twice(d9, round_key(words, 0));
    lemma_enc_rounds_of_dec(d0, words, 9);
    let x = add_round_key_spec(block_to_state(b), round_key(words, 10));
    lemma_sub_bytes_inv(inv_shift_rows_spec(x));
    lemma_shift_rows_inv(x);
    lemma_add_round_key_twice(block_to_state(b), round_key(words, 10));
}

/// Encryption gives back the block that decryption was given when, in each of the nine
/// middle rounds, no byte that enters InvMixColumns and no byte that leaves it is 0.
pub proof fn lemma_aes_encrypt_decrypt_nonzero(words: Seq<Seq<u8>>, b: Seq<u8>)
    requires
        b.len() == 16,
        forall|n: nat, k: int| n < 9 && 0 <= k < 16 ==> #[trigger] inv_mix_input(aes_dec_initial_state(words, b), words, n)[k] != 0,
        forall|n: nat, k: int| n < 9 && 0 <= k < 16 ==> #[trigger] inv_mix_columns_spec(inv_mix_input(aes_dec_initial_state(words, b), words, n))[k] != 0,
    ensures
        aes_encrypt_spec(words, aes_decrypt_spec(words, b)) == b,
{
    let d0 = aes_dec_initial_state(words, b);
    assert forall|n: nat| n < 9 implies #[trigger] mix_columns_spec(inv_mix_columns_spec(inv_mix_input(d0, words, n))) == inv_mix_input(d0, words, n) by {
        let y = inv_mix_input(d0, words, n);
        assert forall|k: int| 0 <= k < 16 implies #[trigger] y[k] != 0 && inv_mix_columns_spec(y)[k] != 0 by {
            assert(inv_mix_input(d0, words, n)[k] != 0);
            assert(inv_mix_columns_spec(inv_mix_input(d0, words, n))[k] != 0);
        }
        lemma_mix_columns_inv(y);
    }
    lemma_aes_encrypt_decrypt(words, b);
}

/// The AES S-box entry of byte `b`: row `b / 16`, column `b % 16` of the table.
pub open spec fn aes_sbox(b: u8) -> u8 {
    AES_SBOX[(b / 16) as int][(b % 16) as int]
}

/// The state `s` XOR-ed with words `4 * r .. 4 * r + 4` of the schedule `words`, word `c`
/// going to column `c`.
pub open spec fn xor_schedule_words(s: Seq<u8>, words: Seq<Seq<u8>>, r: int) -> Seq<u8> {
    Seq::new(16, |k: int| s[k] ^ words[4 * r + k % 4][k / 4])
}

/// SubBytes puts every byte of the state through the AES S-box, and `substitute` is the
/// S-box lookup.
pub proof fn lemma_aes_sbox(b: u8, s: Seq<u8>)
    ensures
        substitute_spec(b, true) == aes_sbox(b),
        sub_bytes_spec(s, true).len() == 16,
        forall|k: int| 0 <= k < 16 ==> #[trigger] sub_bytes_spec(s, true)[k] == aes_sbox(s[k]),
{
    lemma_nibbles(b);
    assert forall|k: int| 0 <= k < 16 implies #[trigger] sub_bytes_spec(s, true)[k] == aes_sbox(s[k]) by {
        lemma_nibbles(s[k]);
    }
}

/// The AES-128 key schedule, for every key: words 0 to 3 are the key's bytes in order;
/// for 4 <= i < 44, word i is word i - 4 XOR SubWord(RotWord(word i - 1)) XOR
/// (RC[i / 4], 0, 0, 0) when i % 4 == 0, and word i - 4 XOR word i - 1 otherwise.
pub proof fn lemma_aes_key_schedule(key: Seq<u8>)
    requires
        key.len() == 16,
    ensures
        key_schedule_spec(key).len() == 44,
        forall|i: int| 0 <= i < 44 ==> (#[trigger] key_schedule_spec(key)[i]).len() == 4,
        forall|i: int, j: int| 0 <= i < 4 && 0 <= j < 4 ==> #[trigger] key_schedule_spec(key)[i][j] == key[4 * i + j],
        forall|i: int, j: int|
            4 <= i < 44 && i % 4 == 0 && 0 <= j < 4 ==> #[trigger] key_schedule_spec(key)[i][j] == key_schedule_spec(key)[i - 4][j]
                ^ aes_sbox(key_schedule_spec(key)[i - 1][(j + 1) % 4]) ^ (if j == 0 { RC[i / 4] } else { 0u8 }),
        forall|i: int, j: int|
            4 <= i < 44 && i % 4 != 0 && 0 <= j < 4 ==> #[trigger] key_schedule_spec(key)[i][j] == key_schedule_spec(key)[i - 4][j]
                ^ key_schedule_spec(key)[i - 1][j],
{
    let w = key_schedule_spec(key);
    assert forall|i: int| 0 <= i < 44 implies (#[trigger] w[i]).len() == 4 by {
        if i >= 4 {
            assert(w[i] == key_word(key, i as nat));
        }
    }
    assert forall|i: int, j: int|
        4 <= i < 44 && i % 4 == 0 && 0 <= j < 4 implies #[trigger] w[i][j] == w[i - 4][j] ^ aes_sbox(w[i - 1][(j + 1) % 4])
            ^ (if j == 0 { RC[i / 4] } else { 0u8 }) by {
        lemma_nibbles(w[i - 1][(j + 1) % 4]);
        if j != 0 {
            let a = w[i - 4][j] ^ aes_sbox(w[i - 1][(j + 1) % 4]);
            assert(a ^ 0u8 == a) by (bit_vector);
        }
    }
}

/// The rounds of AES-128 encryption, for every key schedule: round `r` (1 to 9) is
/// SubBytes, ShiftRows, MixColumns, then the state XOR-ed with schedule words 4r to 4r+3;
/// encryption first XORs words 0 to 3 into the block's state and ends with SubBytes,
/// ShiftRows and words 40 to 43.
pub proof fn lemma_aes_encrypt_rounds(words: Seq<Seq<u8>>, b: Seq<u8>, s: Seq<u8>, n: nat)
    requires
        words.len() == 44,
        n < 10,
    ensures
        aes_enc_rounds(s, words, n + 1) == xor_schedule_words(
            mix_columns_spec(shift_rows_spec(sub_bytes_spec(aes_enc_rounds(s, words, n), true))),
            words,
            n + 1 as int,
        ),
        aes_encrypt_spec(words, b) == state_to_block(
            xor_schedule_words(
                shift_rows_spec(
                    sub_bytes_spec(aes_enc_rounds(xor_schedule_words(block_to_state(b), words, 0), words, 9), true),
                ),
                words,
                10,
            ),
        ),
{
    reveal(aes_encrypt_spec);
    assert(aes_enc_rounds(s, words, n + 1) =~= xor_schedule_words(
        mix_columns_spec(shift_rows_spec(sub_bytes_spec(aes_enc_rounds(s, words, n), true))),
        words,
        n + 1 as int,
    ));
    assert(add_round_key_spec(block_to_state(b), round_key(words, 0)) =~= xor_schedule_words(block_to_state(b), words, 0));
    let s9 = aes_enc_rounds(xor_schedule_words(block_to_state(b), words, 0), words, 9);
    assert(add_round_key_spec(shift_rows_spec(sub_bytes_spec(s9, true)), round_key(words, 10)) =~= xor_schedule_words(shift_rows_spec(sub_bytes_spec(s9, true)), words, 10));
}

/// The rounds of AES-128 decryption, for every key schedule: it first XORs words 40 to
/// 43 into the block's state, then InvShiftRows and InvSubBytes; inverse round `n + 1`
/// XORs words 4(9-n) to 4(9-n)+3, then InvMixColumns, InvShiftRows, InvSubBytes; it ends
/// with words 0 to 3.
pub proof fn lemma_aes_decrypt_rounds(words: Seq<Seq<u8>>, b: Seq<u8>, s: Seq<u8>, n: nat)
    requires
        words.len() == 44,
        n < 9,
    ensures
        aes_dec_rounds(s, words, n + 1) == sub_bytes_spec(
            inv_shift_rows_spec(inv_mix_columns_spec(xor_schedule_words(aes_dec_rounds(s, words, n), words, 9 - n))),
            false,
        ),
        aes_decrypt_spec(words, b) == state_to_block(
            xor_schedule_words(
                aes_dec_rounds(
                    sub_bytes_spec(inv_shift_rows_spec(xor_schedule_words(block_to_state(b), words, 10)), false),
                    words,
                    9,
                ),
                words,
                0,
            ),
        ),
{
    reveal(aes_decrypt_spec);
    assert(add_round_key_spec(aes_dec_rounds(s, words, n), round_key(words, 10 - (n + 1))) =~= xor_schedule_words(aes_dec_rounds(s, words, n), words, 9 - n));
    assert(add_round_key_spec(block_to_state(b), round_key(words, 10)) =~= xor_schedule_words(block_to_state(b), words, 10));
    let d0 = sub_bytes_spec(inv_shift_rows_spec(xor_schedule_words(block_to_state(b), words, 10)), false);
    assert(add_round_key_spec(aes_dec_rounds(d0, words, 9), round_key(words, 0)) =~= xor_schedule_words(aes_dec_rounds(d0, words, 9), words, 0));
}

/// The AES steps byte by byte, for every state `s` (entry `4 * r + c` is row `r`, column
/// `c`): ShiftRows rotates row `r` left by `r`, InvShiftRows right by `r`; MixColumns
/// gives 2·s(r) ^ s(r+3) ^ s(r+2) ^ 3·s(r+1) in each column (rows modulo 4) and
/// InvMixColumns 14·s(r) ^ 9·s(r+3) ^ 13·s(r+2) ^ 11·s(r+1), with the table product;
/// a block's byte `4 * c + r` is the state's row `r`, column `c`, both ways.
pub proof fn lemma_aes_steps(s: Seq<u8>, b: Seq<u8>)
    ensures
        forall|r: int, c: int| 0 <= r < 4 && 0 <= c < 4 ==> #[trigger] shift_rows_spec(s)[4 * r + c] == s[4 * r + (c + r) % 4],
        forall|r: int, c: int| 0 <= r < 4 && 0 <= c < 4 ==> #[trigger] inv_shift_rows_spec(s)[4 * r + c] == s[4 * r + (c + 4 - r) % 4],
        forall|r: int, c: int|
            0 <= r < 4 && 0 <= c < 4 ==> #[trigger] mix_columns_spec(s)[4 * r + c] == gf_mul_spec(s[4 * r + c], 2)
                ^ gf_mul_spec(s[4 * ((r + 3) % 4) + c], 1) ^ gf_mul_spec(s[4 * ((r + 2) % 4) + c], 1) ^ gf_mul_spec(
                s[4 * ((r + 1) % 4) + c],
                3,
            ),
        forall|r: int, c: int|
            0 <= r < 4 && 0 <= c < 4 ==> #[trigger] inv_mix_columns_spec(s)[4 * r + c] == gf_mul_spec(s[4 * r + c], 14)
                ^ gf_mul_spec(s[4 * ((r + 3) % 4) + c], 9) ^ gf_mul_spec(s[4 * ((r + 2) % 4) + c], 13) ^ gf_mul_spec(
                s[4 * ((r + 1) % 4) + c],
                11,
            ),
        forall|r: int, c: int| 0 <= r < 4 && 0 <= c < 4 ==> #[trigger] block_to_state(b)[4 * r + c] == b[4 * c + r],
        forall|r: int, c: int| 0 <= r < 4 && 0 <= c < 4 ==> #[trigger] state_to_block(s)[4 * c + r] == s[4 * r + c],
        forall|k: int| 0 <= k < 16 ==> #[trigger] sub_bytes_spec(s, false)[k] == INVERSE_AES_SBOX[(s[k] / 16) as int][(s[k] % 16) as int],
{
    assert forall|r: int, c: int| 0 <= r < 4 && 0 <= c < 4 implies #[trigger] shift_rows_spec(s)[4 * r + c] == s[4 * r + (c + r) % 4] by {
        assert((4 * r + c) / 4 == r && (4 * r + c) % 4 == c);
    }
    assert forall|r: int, c: int| 0 <= r < 4 && 0 <= c < 4 implies #[trigger] inv_shift_rows_spec(s)[4 * r + c] == s[4 * r + (c + 4 - r) % 4] by {
        assert((4 * r + c) / 4 == r && (4 * r + c) % 4 == c && (4 * c + r) / 4 == c && (4 * c + r) % 4 == r);
    }
    assert forall|r: int, c: int| 0 <= r < 4 && 0 <= c < 4 implies #[trigger] mix_columns_spec(s)[4 * r + c] == gf_mul_spec(s[4 * r + c], 2)
        ^ gf_mul_spec(s[4 * ((r + 3) % 4) + c], 1) ^ gf_mul_spec(s[4 * ((r + 2) % 4) + c], 1) ^ gf_mul_spec(s[4 * ((r + 1) % 4) + c], 3) by {
        assert((4 * r + c) / 4 == r && (4 * r + c) % 4 == c && (4 * c + r) / 4 == c && (4 * c + r) % 4 == r);
    }
    assert forall|r: int, c: int| 0 <= r < 4 && 0 <= c < 4 implies #[trigger] inv_mix_columns_spec(s)[4 * r + c] == gf_mul_spec(s[4 * r + c], 14)
        ^ gf_mul_spec(s[4 * ((r + 3) % 4) + c], 9) ^ gf_mul_spec(s[4 * ((r + 2) % 4) + c], 13) ^ gf_mul_spec(s[4 * ((r + 1) % 4) + c], 11) by {
        assert((4 * r + c) / 4 == r && (4 * r + c) % 4 == c && (4 * c + r) / 4 == c && (4 * c + r) % 4 == r);
    }
    assert forall|r: int, c: int| 0 <= r < 4 && 0 <= c < 4 implies #[trigger] block_to_state(b)[4 * r + c] == b[4 * c + r] by {
        assert((4 * r + c) / 4 == r && (4 * r + c) % 4 == c && (4 * c + r) / 4 == c && (4 * c + r) % 4 == r);
    }
    assert forall|r: int, c: int| 0 <= r < 4 && 0 <= c < 4 implies #[trigger] state_to_block(s)[4 * c + r] == s[4 * r + c] by {
        assert((4 * r + c) / 4 == r && (4 * r + c) % 4 == c && (4 * c + r) / 4 == c && (4 * c + r) % 4 == r);
    }
    assert forall|k: int| 0 <= k < 16 implies #[trigger] sub_bytes_spec(s, false)[k] == INVERSE_AES_SBOX[(s[k] / 16) as int][(s[k] % 16) as int] by {
        lemma_nibbles(s[k]);
    }
}

} // verus!
