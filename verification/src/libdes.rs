use vstd::prelude::*;
use crate::bitops::{bit_of, lemma_bits_eq, lemma_mask_bounds, lemma_or_bit, lemma_word_facts};
use crate::consts::{E_TABLE, FP_TABLE, IP_TABLE, P_TABLE, PC1, PC2, SBOXES, SHIFTS};

verus! {

/// Every one of the first `n` entries of `table` names a bit of a 64-bit word.
pub open spec fn table_ok(table: [u8; 64], n: nat) -> bool {
    forall|i: int| 0 <= i < n ==> #[trigger] table[i] <= 63
}

/// The word whose bit `63 - i` (counted from the least significant bit) is bit
/// `63 - table[i]` of `src`, for each `i < n`; all other bits are 0.
pub open spec fn permute_bits(src: u64, table: [u8; 64], n: nat) -> u64
    decreases n,
{
    if n == 0 {
        0
    } else {
        let i = n - 1;
        permute_bits(src, table, (n - 1) as nat) | (((src >> ((63 - table[i]) as u64)) & 1) << ((
        63 - i) as u64))
    }
}

/// Bit by bit, `permute_bits` moves bit `63 - table[i]` of `src` to bit `63 - i`.
pub proof fn lemma_permute_bits(src: u64, table: [u8; 64], n: nat)
    requires
        n <= 64,
        table_ok(table, n),
    ensures
        forall|p: u64|
            p < 64 ==> #[trigger] bit_of(permute_bits(src, table, n), p) == if 63 - p < n {
                bit_of(src, (63 - table[63 - p]) as u64)
            } else {
                0
            },
    decreases n,
{
    if n > 0 {
        let m = (n - 1) as nat;
        lemma_permute_bits(src, table, m);
        let prev = permute_bits(src, table, m);
        let b = (src >> ((63 - table[m as int]) as u64)) & 1;
        let s = (63 - m) as u64;
        lemma_mask_bounds(src, (63 - table[m as int]) as u64);
        assert forall|p: u64| p < 64 implies #[trigger] bit_of(permute_bits(src, table, n), p)
            == if 63 - p < n {
            bit_of(src, (63 - table[63 - p]) as u64)
        } else {
            0
        } by {
            lemma_or_bit(prev, b, s, p);
        }
    } else {
        assert forall|p: u64| p < 64 implies #[trigger] bit_of(permute_bits(src, table, n), p)
            == 0 by {
            lemma_word_facts(0, 0, p);
        }
    }
}

/// Applying a permutation and then its inverse gives back the word.
pub proof fn lemma_permute_inverse(x: u64, t1: [u8; 64], t2: [u8; 64])
    requires
        table_ok(t1, 64),
        table_ok(t2, 64),
        forall|i: int| 0 <= i < 64 ==> #[trigger] t1[t2[i] as int] == i,
    ensures
        permute_bits(permute_bits(x, t1, 64), t2, 64) == x,
{
    let y = permute_bits(x, t1, 64);
    let z = permute_bits(y, t2, 64);
    lemma_permute_bits(x, t1, 64);
    lemma_permute_bits(y, t2, 64);
    assert forall|p: u64| p < 64 implies #[trigger] bit_of(z, p) == bit_of(x, p) by {
        let j = t2[63 - p];
        assert(bit_of(y, (63 - j) as u64) == bit_of(x, (63 - t1[j as int]) as u64));
    }
    lemma_bits_eq(z, x);
}

/// The facts about the DES tables that the functions below rely on.
pub proof fn lemma_des_tables()
    ensures
        table_ok(IP_TABLE, 64),
        table_ok(FP_TABLE, 64),
        table_ok(E_TABLE, 64),
        table_ok(P_TABLE, 64),
        table_ok(PC1, 64),
        table_ok(PC2, 64),
        forall|i: int| 0 <= i < 64 ==> #[trigger] IP_TABLE[FP_TABLE[i] as int] == i,
        forall|i: int| 0 <= i < 64 ==> #[trigger] FP_TABLE[IP_TABLE[i] as int] == i,
        forall|i: int| 0 <= i < 16 ==> #[trigger] SHIFTS[i] <= 28,
{
}

/// The first `len` (at most 64) entries of `shift_table` pick bits of `src`: bit
/// `63 - shift_table[i]` of `src` becomes bit `63 - i` of the result.
fn bit_shift(src: u64, shift_table: [u8; 64], len: usize) -> (res: u64)
    requires
        table_ok(shift_table, if len > 64 { 64 } else { len as nat }),
    ensures
        res == permute_bits(src, shift_table, if len > 64 { 64 } else { len as nat }),
{
    let true_len = if len > shift_table.len() {
        shift_table.len()
    } else {
        len
    };
    let mut res: u64 = 0;
    for i in 0..true_len
        invariant
            true_len <= 64,
            true_len == (if len > 64 { 64 } else { len as nat }),
            table_ok(shift_table, true_len as nat),
            res == permute_bits(src, shift_table, i as nat),
    {
        let bit = (src >> (63 - shift_table[i])) & 0x01;
        res |= bit << (63 - i);
    }
    res
}


/// The 28-bit rotation of `val` to the left by `shift` places.
pub open spec fn rotate_spec(val: u64, shift: u8) -> u64 {
    ((val << (shift as u64)) | (val >> ((28 - shift) as u64))) & 0x0FFFFFFF
}

/// The two 28-bit key halves after permuted choice 1 and `n` rounds of rotation.
pub open spec fn key_halves(key: u64, n: nat) -> (u64, u64)
    decreases n,
{
    if n == 0 {
        let k = permute_bits(key, PC1, 56) >> 8;
        (k >> 28, k & 0x0FFFFFFF)
    } else {
        let (c, d) = key_halves(key, (n - 1) as nat);
        (rotate_spec(c, SHIFTS[n - 1]), rotate_spec(d, SHIFTS[n - 1]))
    }
}

/// The DES subkey of round `i` (from 0): permuted choice 2 of the rotated halves,
/// left-aligned in the word.
pub open spec fn des_subkey(key: u64, i: nat) -> u64 {
    let (c, d) = key_halves(key, i + 1);
    permute_bits(((c << 28u64) | d) << 8u64, PC2, 48)
}

/// The output of S-box `i` for the six input bits that start at bit `63 - 6 * i`.
pub open spec fn sbox_output(input: u64, i: int) -> u64 {
    SBOXES[i][((input >> ((58 - 6 * i) as u64)) & 0x3F) as int] as u64
}

/// The outputs of the first `n` S-boxes, each placed in its 4-bit slot from the top.
pub open spec fn s_boxes_spec(input: u64, n: nat) -> u64
    decreases n,
{
    if n == 0 {
        0
    } else {
        let i = n - 1;
        s_boxes_spec(input, (n - 1) as nat) | (sbox_output(input, i) << ((60 - 4 * i) as u64))
    }
}

/// The DES round function on the right half held in the top 32 bits of `input`.
pub open spec fn f_spec(input: u64, key: u64) -> u64 {
    permute_bits(s_boxes_spec(permute_bits(input, E_TABLE, 64) ^ key, 8), P_TABLE, 32)
}

/// One Feistel round on the halves (top, bottom) of `input`.
pub open spec fn round_spec(input: u64, key: u64) -> u64 {
    let l = input & 0xFFFF_FFFF_0000_0000u64;
    let r = input << 32u64;
    r | ((f_spec(r, key) ^ l) >> 32u64)
}

/// The Feistel rounds with the keys of `keys`, in order.
pub open spec fn des_rounds(data: u64, keys: Seq<u64>) -> u64
    decreases keys.len(),
{
    if keys.len() == 0 {
        data
    } else {
        round_spec(des_rounds(data, keys.drop_last()), keys.last())
    }
}

/// Exchanges the two 32-bit halves of a word.
pub open spec fn swap_halves(x: u64) -> u64 {
    (x << 32u64) | (x >> 32u64)
}

/// DES with the round keys `keys`: initial permutation, the rounds, the final swap
/// and the final permutation.
#[verifier::opaque]
pub open spec fn des_encrypt_spec(data: u64, keys: Seq<u64>) -> u64 {
    permute_bits(swap_halves(des_rounds(permute_bits(data, IP_TABLE, 64), keys)), FP_TABLE, 64)
}

/// DES decryption: the same cipher with the round keys in reverse order.
pub open spec fn des_decrypt_spec(data: u64, keys: Seq<u64>) -> u64 {
    des_encrypt_spec(data, keys.reverse())
}

/// Left rotate of a 28 bit number
fn rotate(mut val: u64, shift: u8) -> (res: u64)
    requires
        shift <= 28,
    ensures
        res == rotate_spec(val, shift),
{
    let top_bits = val >> (28 - shift);
    val <<= shift;

    (val | top_bits) & 0x0FFFFFFF
}

/// The 16 DES subkeys of `key`.
pub fn get_subkeys(key: u64) -> (keys: [u64; 16])
    ensures
        forall|i: int| 0 <= i < 16 ==> #[trigger] keys[i] == des_subkey(key, i as nat),
{
    proof {
        lemma_des_tables();
    }
    let ghost key0 = key;
    let mut keys: [u64; 16] = [0; 16];
    let key = bit_shift(key, PC1, 56);
    let key = key >> 8;

    let mut c = key >> 28;
    let mut d = key & 0x0FFFFFFF;
    for i in 0..16
        invariant
            (c, d) == key_halves(key0, i as nat),
            forall|j: int| 0 <= j < i ==> #[trigger] keys[j] == des_subkey(key0, j as nat),
            table_ok(PC2, 64),
            forall|j: int| 0 <= j < 16 ==> #[trigger] SHIFTS[j] <= 28,
    {
        c = rotate(c, SHIFTS[i]);
        d = rotate(d, SHIFTS[i]);
        keys[i] = bit_shift(((c << 28) | d) << 8, PC2, 48);
    }
    keys
}

/// One DES round.
fn round(input: u64, key: u64) -> (res: u64)
    ensures
        res == round_spec(input, key),
{
    let l = input & 0xFFFF_FFFF_0000_0000;
    let r = input << 32;

    r | ((f(r, key) ^ l) >> 32)
}

/// The DES round function.
fn f(input: u64, key: u64) -> (res: u64)
    ensures
        res == f_spec(input, key),
{
    proof {
        lemma_des_tables();
    }
    let mut val = bit_shift(input, E_TABLE, 64);
    val ^= key;
    val = s_boxes(val);
    bit_shift(val, P_TABLE, 32)
}

/// Applies all eight S-boxes to the top 48 bits of `input`.
pub fn s_boxes(input: u64) -> (output: u64)
    ensures
        output == s_boxes_spec(input, 8),
{
    let mut output: u64 = 0;

    for i in 0..8usize
        invariant
            output == s_boxes_spec(input, i as nat),
    {
        let val = (input >> (58 - (i * 6))) & 0x3F;
        proof {
            lemma_mask_bounds(input >> (58 - (i * 6)) as u64, 0);
        }
        output |= (SBOXES[i][val as usize] as u64) << (60 - (i * 4));
    }
    output
}

/// Encrypts one 64-bit block with the subkeys `keys`.
pub fn encrypt(mut data: u64, keys: [u64; 16]) -> (res: u64)
    ensures
        res == des_encrypt_spec(data, keys@),
{
    proof {
        lemma_des_tables();
        reveal(des_encrypt_spec);
    }
    let ghost ip = permute_bits(data, IP_TABLE, 64);
    data = bit_shift(data, IP_TABLE, 64);

    for i in 0..16
        invariant
            data == des_rounds(ip, keys@.take(i as int)),
    {
        proof {
            assert(keys@.take(i + 1).drop_last() =~= keys@.take(i as int));
        }
        data = round(data, keys[i]);
    }
    proof {
        assert(keys@.take(16) =~= keys@);
    }
    bit_shift((data << 32) | (data >> 32), FP_TABLE, 64)
}

/// Decrypts one 64-bit block with the subkeys `keys`, used in reverse order.
pub fn decrypt(mut data: u64, keys: [u64; 16]) -> (res: u64)
    ensures
        res == des_decrypt_spec(data, keys@),
{
    proof {
        lemma_des_tables();
        reveal(des_encrypt_spec);
    }
    let ghost ip = permute_bits(data, IP_TABLE, 64);
    let ghost rev = keys@.reverse();
    data = bit_shift(data, IP_TABLE, 64);

    for i in 0..16
        invariant
            rev == keys@.reverse(),
            data == des_rounds(ip, rev.take(i as int)),
    {
        proof {
            assert(rev.take(i + 1).drop_last() =~= rev.take(i as int));
            assert(rev[i as int] == keys@[15 - i]);
        }
        data = round(data, keys[15 - i]);
    }
    proof {
        assert(rev.take(16) =~= rev);
    }
    bit_shift((data << 32) | (data >> 32), FP_TABLE, 64)
}

/// A round undoes itself once the halves are exchanged: the Feistel property.
proof fn lemma_round_swap(x: u64, k: u64)
    ensures
        round_spec(swap_halves(round_spec(x, k)), k) == swap_halves(x),
{
    let r = x << 32u64;
    let big_f = f_spec(r, k);
    let y = round_spec(x, k);
    let sy = swap_halves(y);
    assert(sy << 32u64 == r) by (bit_vector)
        requires
            r == x << 32u64,
            y == r | ((big_f ^ (x & 0xFFFF_FFFF_0000_0000u64)) >> 32u64),
            sy == (y << 32u64) | (y >> 32u64),
    ;
    assert(r | ((big_f ^ (sy & 0xFFFF_FFFF_0000_0000u64)) >> 32u64) == (x << 32u64) | (x >> 32u64))
        by (bit_vector)
        requires
            r == x << 32u64,
            y == r | ((big_f ^ (x & 0xFFFF_FFFF_0000_0000u64)) >> 32u64),
            sy == (y << 32u64) | (y >> 32u64),
    ;
}

/// Running the rounds of `k` then `rest` is running `rest` on the result of the first round.
proof fn lemma_rounds_prefix(d: u64, k: u64, rest: Seq<u64>)
    ensures
        des_rounds(d, seq![k] + rest) == des_rounds(round_spec(d, k), rest),
    decreases rest.len(),
{
    if rest.len() == 0 {
        assert((seq![k] + rest).drop_last() =~= Seq::<u64>::empty());
        assert((seq![k] + rest).last() == k);
        assert(des_rounds(d, Seq::<u64>::empty()) == d);
    } else {
        lemma_rounds_prefix(d, k, rest.drop_last());
        assert((seq![k] + rest).drop_last() =~= seq![k] + rest.drop_last());
        assert((seq![k] + rest).last() == rest.last());
    }
}

/// The rounds with the keys reversed undo the rounds, up to exchanging the halves.
proof fn lemma_rounds_reverse(d: u64, keys: Seq<u64>)
    ensures
        des_rounds(swap_halves(des_rounds(d, keys)), keys.reverse()) == swap_halves(d),
    decreases keys.len(),
{
    if keys.len() > 0 {
        let init = keys.drop_last();
        let k = keys.last();
        let e = des_rounds(d, init);
        assert(keys.reverse() =~= seq![k] + init.reverse());
        lemma_rounds_prefix(swap_halves(round_spec(e, k)), k, init.reverse());
        lemma_round_swap(e, k);
        lemma_rounds_reverse(d, init);
    } else {
        lemma_word_facts(d, 0, 0);
    }
}

/// DES decryption with the same subkeys gives back the block that was encrypted.
pub proof fn lemma_des_decrypt_encrypt(data: u64, keys: Seq<u64>)
    ensures
        des_decrypt_spec(des_encrypt_spec(data, keys), keys) == data,
{
    lemma_des_tables();
    reveal(des_encrypt_spec);
    let ip = permute_bits(data, IP_TABLE, 64);
    let rounds = des_rounds(ip, keys);
    let enc = des_encrypt_spec(data, keys);
    lemma_permute_inverse(swap_halves(rounds), FP_TABLE, IP_TABLE);
    assert(keys.reverse().reverse() =~= keys);
    lemma_rounds_reverse(ip, keys);
    lemma_word_facts(ip, 0, 0);
    lemma_permute_inverse(data, IP_TABLE, FP_TABLE);
}

/// The 16 DES subkeys of `key` as a sequence, in round order.
pub open spec fn des_subkeys(key: u64) -> Seq<u64> {
    Seq::new(16, |i: int| des_subkey(key, i as nat))
}

/// The XOR of two words, bit by bit.
proof fn lemma_bit_xor(a: u64, b: u64, p: u64)
    requires
        p < 64,
    ensures
        bit_of(a ^ b, p) == bit_of(a, p) ^ bit_of(b, p),
{
    lemma_word_facts(a, b, p);
}

/// `permute_bits` commutes with XOR.
proof fn lemma_permute_xor(x: u64, y: u64, t: [u8; 64], n: nat)
    requires
        n <= 64,
        table_ok(t, n),
    ensures
        permute_bits(x ^ y, t, n) == permute_bits(x, t, n) ^ permute_bits(y, t, n),
{
    lemma_permute_bits(x ^ y, t, n);
    lemma_permute_bits(x, t, n);
    lemma_permute_bits(y, t, n);
    let a = permute_bits(x ^ y, t, n);
    let b = permute_bits(x, t, n) ^ permute_bits(y, t, n);
    assert forall|p: u64| p < 64 implies #[trigger] bit_of(a, p) == bit_of(b, p) by {
        lemma_bit_xor(permute_bits(x, t, n), permute_bits(y, t, n), p);
        if 63 - p < n {
            lemma_bit_xor(x, y, (63 - t[63 - p]) as u64);
        } else {
            lemma_word_facts(0, 0, 0);
        }
    }
    lemma_bits_eq(a, b);
}

/// `permute_bits` of a word whose bits read by the table are all `b` is `out`, the word
/// with `b` in the `n` top bits.
proof fn lemma_permute_const(src: u64, t: [u8; 64], n: nat, b: u64, out: u64)
    requires
        n <= 64,
        table_ok(t, n),
        forall|i: int| 0 <= i < n ==> #[trigger] bit_of(src, (63 - t[i]) as u64) == b,
        forall|p: u64| p < 64 ==> #[trigger] bit_of(out, p) == if 63 - p < n { b } else { 0 },
    ensures
        permute_bits(src, t, n) == out,
{
    lemma_permute_bits(src, t, n);
    let a = permute_bits(src, t, n);
    assert forall|p: u64| p < 64 implies #[trigger] bit_of(a, p) == bit_of(out, p) by {
        if 63 - p < n {
            assert(bit_of(src, (63 - t[63 - p]) as u64) == b);
        }
    }
    lemma_bits_eq(a, out);
}

/// The bits of the word whose `n` top bits are 1: `top` for n = 32, 48, 56 and 64.
proof fn lemma_top_bits()
    ensures
        forall|p: u64| p < 64 ==> #[trigger] bit_of(0xFFFF_FFFF_FFFF_FFFFu64, p) == if 63 - p < 64 { 1u64 } else { 0 },
        forall|p: u64| p < 64 ==> #[trigger] bit_of(0xFFFF_FFFF_FFFF_FF00u64, p) == if 63 - p < 56 { 1u64 } else { 0 },
        forall|p: u64| p < 64 ==> #[trigger] bit_of(0xFFFF_FFFF_FFFF_0000u64, p) == if 63 - p < 48 { 1u64 } else { 0 },
        forall|p: u64| p < 64 ==> #[trigger] bit_of(0u64, p) == 0,
{
    assert forall|p: u64|
        #![trigger bit_of(0xFFFF_FFFF_FFFF_FFFFu64, p)]
        #![trigger bit_of(0xFFFF_FFFF_FFFF_FF00u64, p)]
        #![trigger bit_of(0xFFFF_FFFF_FFFF_0000u64, p)]
        #![trigger bit_of(0u64, p)]
        p < 64 implies {
        &&& bit_of(0xFFFF_FFFF_FFFF_FFFFu64, p) == if 63 - p < 64 { 1u64 } else { 0 }
        &&& bit_of(0xFFFF_FFFF_FFFF_FF00u64, p) == if 63 - p < 56 { 1u64 } else { 0 }
        &&& bit_of(0xFFFF_FFFF_FFFF_0000u64, p) == if 63 - p < 48 { 1u64 } else { 0 }
        &&& bit_of(0u64, p) == 0
    } by {
        assert((0xFFFF_FFFF_FFFF_FFFFu64 >> p) & 1 == 1
            && (0xFFFF_FFFF_FFFF_FF00u64 >> p) & 1 == (if p >= 8 { 1u64 } else { 0 })
            && (0xFFFF_FFFF_FFFF_0000u64 >> p) & 1 == (if p >= 16 { 1u64 } else { 0 })
            && (0u64 >> p) & 1 == 0) by (bit_vector)
            requires
                p < 64,
        ;
    }
}

/// Permuting a complemented word complements the bits that the table fills.
proof fn lemma_permute_complement(x: u64, t: [u8; 64], n: nat, out: u64)
    requires
        n <= 64,
        table_ok(t, n),
        forall|p: u64| p < 64 ==> #[trigger] bit_of(out, p) == if 63 - p < n { 1u64 } else { 0 },
    ensures
        permute_bits(x ^ 0xFFFF_FFFF_FFFF_FFFFu64, t, n) == permute_bits(x, t, n) ^ out,
{
    lemma_permute_xor(x, 0xFFFF_FFFF_FFFF_FFFFu64, t, n);
    lemma_top_bits();
    assert forall|i: int| 0 <= i < n implies #[trigger] bit_of(0xFFFF_FFFF_FFFF_FFFFu64, (63 - t[i]) as u64) == 1 by {
        assert(t[i] <= 63);
        let q = (63 - t[i]) as u64;
        assert(bit_of(0xFFFF_FFFF_FFFF_FFFFu64, q) == 1);
    }
    lemma_permute_const(0xFFFF_FFFF_FFFF_FFFFu64, t, n, 1, out);
}

/// The S-boxes read only the top 48 bits of their input.
proof fn lemma_s_boxes_low_bits(x: u64, n: nat)
    requires
        n <= 8,
    ensures
        s_boxes_spec(x ^ 0xFFFF, n) == s_boxes_spec(x, n),
    decreases n,
{
    if n > 0 {
        lemma_s_boxes_low_bits(x, (n - 1) as nat);
        let s = (58 - 6 * (n - 1)) as u64;
        assert(((x ^ 0xFFFF) >> s) & 0x3F == (x >> s) & 0x3F) by (bit_vector)
            requires
                16 <= s < 64,
        ;
    }
}

/// Word facts for a round on a complemented word: the right half moves to the top
/// complemented, the round key meets the expansion complemented except in the 16 bits
/// the S-boxes do not read, and the round output is complemented.
proof fn lemma_round_words(x: u64, e: u64, k: u64, f: u64)
    by (bit_vector)
    ensures
        (x ^ 0xFFFF_FFFF_FFFF_FFFFu64) << 32u64 == (x << 32u64) ^ 0xFFFF_FFFF_0000_0000u64,
        (e ^ 0xFFFF_FFFF_FFFF_FFFFu64) ^ (k ^ 0xFFFF_FFFF_FFFF_0000u64) == (e ^ k) ^ 0xFFFF,
        ((x ^ 0xFFFF_FFFF_FFFF_FFFFu64) << 32u64) | ((f ^ ((x ^ 0xFFFF_FFFF_FFFF_FFFFu64) & 0xFFFF_FFFF_0000_0000u64)) >> 32u64)
            == ((x << 32u64) | ((f ^ (x & 0xFFFF_FFFF_0000_0000u64)) >> 32u64)) ^ 0xFFFF_FFFF_FFFF_FFFFu64,
{
}

/// A Feistel round on a complemented word with a complemented round key gives the
/// complemented result.
proof fn lemma_round_complement(x: u64, k: u64)
    ensures
        round_spec(x ^ 0xFFFF_FFFF_FFFF_FFFFu64, k ^ 0xFFFF_FFFF_FFFF_0000u64) == round_spec(x, k) ^ 0xFFFF_FFFF_FFFF_FFFFu64,
{
    lemma_des_tables();
    lemma_top_bits();
    let ones = 0xFFFF_FFFF_FFFF_FFFFu64;
    let top32 = 0xFFFF_FFFF_0000_0000u64;
    let r = x << 32u64;
    let r2 = (x ^ ones) << 32u64;
    lemma_round_words(x, permute_bits(r, E_TABLE, 64), k, f_spec(r, k));
    lemma_permute_xor(r, top32, E_TABLE, 64);
    assert forall|i: int| 0 <= i < 64 implies #[trigger] bit_of(top32, (63 - E_TABLE[i]) as u64) == 1 by {
        let q = (63 - E_TABLE[i]) as u64;
        assert(E_TABLE[i] <= 31);
        assert((0xFFFF_FFFF_0000_0000u64 >> q) & 1 == 1) by (bit_vector)
            requires
                32 <= q < 64,
        ;
    }
    lemma_permute_const(top32, E_TABLE, 64, 1, ones);
    let e = permute_bits(r, E_TABLE, 64);
    lemma_s_boxes_low_bits(e ^ k, 8);
    let f = f_spec(r, k);
    assert(f_spec(r2, k ^ 0xFFFF_FFFF_FFFF_0000u64) == f);
}

/// The Feistel rounds keep a complement of the input and of every round key.
proof fn lemma_rounds_complement(d: u64, k1: Seq<u64>, k2: Seq<u64>)
    requires
        k1.len() == k2.len(),
        forall|i: int| 0 <= i < k1.len() ==> #[trigger] k2[i] == k1[i] ^ 0xFFFF_FFFF_FFFF_0000u64,
    ensures
        des_rounds(d ^ 0xFFFF_FFFF_FFFF_FFFFu64, k2) == des_rounds(d, k1) ^ 0xFFFF_FFFF_FFFF_FFFFu64,
    decreases k1.len(),
{
    if k1.len() > 0 {
        lemma_rounds_complement(d, k1.drop_last(), k2.drop_last());
        assert(k2.last() == k1.last() ^ 0xFFFF_FFFF_FFFF_0000u64);
        lemma_round_complement(des_rounds(d, k1.drop_last()), k1.last());
    }
}

/// Complement is XOR with all ones, and swapping the halves keeps a complement.
proof fn lemma_complement_words(m: u64, w: u64)
    by (bit_vector)
    ensures
        !m == m ^ 0xFFFF_FFFF_FFFF_FFFFu64,
        swap_halves(w ^ 0xFFFF_FFFF_FFFF_FFFFu64) == swap_halves(w) ^ 0xFFFF_FFFF_FFFF_FFFFu64,
{
}

/// The complementation property of DES: complementing the block and every round key
/// (in its 48 bits) complements the ciphertext.
pub proof fn lemma_des_complement(m: u64, k1: Seq<u64>, k2: Seq<u64>)
    requires
        k1.len() == k2.len(),
        forall|i: int| 0 <= i < k1.len() ==> #[trigger] k2[i] == k1[i] ^ 0xFFFF_FFFF_FFFF_0000u64,
    ensures
        des_encrypt_spec(!m, k2) == !des_encrypt_spec(m, k1),
{
    reveal(des_encrypt_spec);
    lemma_des_tables();
    lemma_top_bits();
    let ones = 0xFFFF_FFFF_FFFF_FFFFu64;
    lemma_complement_words(m, 0);
    lemma_permute_complement(m, IP_TABLE, 64, ones);
    let ip = permute_bits(m, IP_TABLE, 64);
    lemma_rounds_complement(ip, k1, k2);
    let rr = des_rounds(ip, k1);
    lemma_complement_words(m, rr);
    lemma_permute_complement(swap_halves(rr), FP_TABLE, 64, ones);
    lemma_complement_words(des_encrypt_spec(m, k1), 0);
}

/// Rotating the complement of a 28-bit half gives the complement of the rotation.
proof fn lemma_rotate_complement(c: u64, s: u8)
    requires
        c < 0x1000_0000,
        s <= 28,
    ensures
        rotate_spec(c ^ 0x0FFF_FFFF, s) == rotate_spec(c, s) ^ 0x0FFF_FFFF,
        rotate_spec(c, s) < 0x1000_0000,
{
    let a = s as u64;
    let b = (28 - s) as u64;
    assert(((((c ^ 0x0FFF_FFFF) << a) | ((c ^ 0x0FFF_FFFF) >> b)) & 0x0FFF_FFFF) == ((((c << a) | (c >> b)) & 0x0FFF_FFFF) ^ 0x0FFF_FFFF)
        && (((c << a) | (c >> b)) & 0x0FFF_FFFF) < 0x1000_0000) by (bit_vector)
        requires
            c < 0x1000_0000,
            a <= 28,
            a + b == 28,
    ;
}

/// The key halves of the complemented key are the complemented halves, and each half
/// has 28 bits.
proof fn lemma_key_halves_complement(k: u64, n: nat)
    requires
        n <= 16,
    ensures
        key_halves(!k, n).0 == key_halves(k, n).0 ^ 0x0FFF_FFFF,
        key_halves(!k, n).1 == key_halves(k, n).1 ^ 0x0FFF_FFFF,
        key_halves(k, n).0 < 0x1000_0000,
        key_halves(k, n).1 < 0x1000_0000,
    decreases n,
{
    lemma_des_tables();
    if n == 0 {
        lemma_top_bits();
        lemma_complement_words(k, 0);
        lemma_permute_complement(k, PC1, 56, 0xFFFF_FFFF_FFFF_FF00u64);
        let p = permute_bits(k, PC1, 56);
        assert((((p ^ 0xFFFF_FFFF_FFFF_FF00u64) >> 8u64) >> 28u64) == ((p >> 8u64) >> 28u64) ^ 0x0FFF_FFFF
            && (((p ^ 0xFFFF_FFFF_FFFF_FF00u64) >> 8u64) & 0x0FFF_FFFF) == ((p >> 8u64) & 0x0FFF_FFFF) ^ 0x0FFF_FFFF
            && ((p >> 8u64) >> 28u64) < 0x1000_0000
            && ((p >> 8u64) & 0x0FFF_FFFF) < 0x1000_0000) by (bit_vector);
    } else {
        lemma_key_halves_complement(k, (n - 1) as nat);
        let (c, d) = key_halves(k, (n - 1) as nat);
        assert(SHIFTS[n - 1] <= 28);
        lemma_rotate_complement(c, SHIFTS[n - 1]);
        lemma_rotate_complement(d, SHIFTS[n - 1]);
    }
}

/// The subkeys of the complemented key are the complemented subkeys (in their 48 bits).
pub proof fn lemma_des_subkey_complement(k: u64, i: nat)
    requires
        i < 16,
    ensures
        des_subkey(!k, i) == des_subkey(k, i) ^ 0xFFFF_FFFF_FFFF_0000u64,
{
    lemma_des_tables();
    lemma_top_bits();
    lemma_key_halves_complement(k, i + 1);
    let (c, d) = key_halves(k, i + 1);
    let z = ((c << 28u64) | d) << 8u64;
    let top56 = 0xFFFF_FFFF_FFFF_FF00u64;
    assert((((c ^ 0x0FFF_FFFF) << 28u64) | (d ^ 0x0FFF_FFFF)) << 8u64 == z ^ top56) by (bit_vector)
        requires
            c < 0x1000_0000,
            d < 0x1000_0000,
            z == ((c << 28u64) | d) << 8u64,
            top56 == 0xFFFF_FFFF_FFFF_FF00u64,
    ;
    lemma_permute_xor(z, top56, PC2, 48);
    assert forall|j: int| 0 <= j < 48 implies #[trigger] bit_of(top56, (63 - PC2[j]) as u64) == 1 by {
        let q = (63 - PC2[j]) as u64;
        assert(PC2[j] <= 55);
        assert((0xFFFF_FFFF_FFFF_FF00u64 >> q) & 1 == 1) by (bit_vector)
            requires
                8 <= q < 64,
        ;
    }
    lemma_permute_const(top56, PC2, 48, 1, 0xFFFF_FFFF_FFFF_0000u64);
}

/// The DES complementation property for a key: encrypting the complemented block with
/// the subkeys of the complemented key gives the complemented ciphertext.
pub proof fn lemma_des_key_complement(m: u64, k: u64)
    ensures
        des_encrypt_spec(!m, des_subkeys(!k)) == !des_encrypt_spec(m, des_subkeys(k)),
{
    assert forall|i: int| 0 <= i < 16 implies #[trigger] des_subkeys(!k)[i] == des_subkeys(k)[i] ^ 0xFFFF_FFFF_FFFF_0000u64 by {
        lemma_des_subkey_complement(k, i as nat);
    }
    lemma_des_complement(m, des_subkeys(k), des_subkeys(!k));
}

/// The parity bits of the key (the lowest bit of each byte) do not change the subkeys.
pub proof fn lemma_des_subkey_parity(k: u64, i: nat)
    ensures
        des_subkey(k ^ 0x0101_0101_0101_0101u64, i) == des_subkey(k, i),
{
    lemma_des_tables();
    lemma_top_bits();
    let par = 0x0101_0101_0101_0101u64;
    lemma_permute_xor(k, par, PC1, 56);
    assert forall|j: int| 0 <= j < 56 implies #[trigger] bit_of(par, (63 - PC1[j]) as u64) == 0 by {
        let t = PC1[j] as u64;
        let q = (63 - PC1[j]) as u64;
        assert(t % 8 != 7);
        assert((0x0101_0101_0101_0101u64 >> q) & 1 == 0) by (bit_vector)
            requires
                t < 64,
                q + t == 63,
                t % 8 != 7,
        ;
    }
    lemma_permute_const(par, PC1, 56, 0, 0);
    lemma_word_facts(permute_bits(k, PC1, 56), 0, 0);
    lemma_key_halves_same(k, k ^ par, i + 1);
}

/// Keys with the same permuted choice 1 have the same key halves.
proof fn lemma_key_halves_same(k1: u64, k2: u64, n: nat)
    requires
        permute_bits(k1, PC1, 56) == permute_bits(k2, PC1, 56),
    ensures
        key_halves(k1, n) == key_halves(k2, n),
    decreases n,
{
    if n > 0 {
        lemma_key_halves_same(k1, k2, (n - 1) as nat);
    }
}

/// A subkey fills only the 48 top bits of its word.
pub proof fn lemma_des_subkey_low_bits(k: u64, i: nat)
    ensures
        des_subkey(k, i) & 0xFFFF == 0,
{
    lemma_des_tables();
    let (c, d) = key_halves(k, i + 1);
    let z = ((c << 28u64) | d) << 8u64;
    let s = des_subkey(k, i);
    lemma_permute_bits(z, PC2, 48);
    assert(s == permute_bits(z, PC2, 48));
    assert forall|p: u64| p < 64 implies #[trigger] bit_of(s & 0xFFFF, p) == bit_of(0u64, p) by {
        if p < 16 {
            assert(bit_of(permute_bits(z, PC2, 48), p) == 0);
        }
        assert(((s & 0xFFFF) >> p) & 1 == (if p < 16 { (s >> p) & 1 } else { 0 }) && (0u64 >> p) & 1 == 0) by (bit_vector)
            requires
                p < 64,
        ;
    }
    lemma_bits_eq(s & 0xFFFF, 0);
}

/// One DES round, for every word and round key: the new left half (the top 32 bits) is
/// the old right half, and the new right half is the old left half XOR the round function
/// of the old right half.
pub proof fn lemma_des_round_halves(x: u64, k: u64)
    ensures
        round_spec(x, k) >> 32u64 == x & 0xFFFF_FFFFu64,
        round_spec(x, k) & 0xFFFF_FFFFu64 == (x >> 32u64) ^ (f_spec(x << 32u64, k) >> 32u64),
{
    let f = f_spec(x << 32u64, k);
    assert((((x << 32u64) | ((f ^ (x & 0xFFFF_FFFF_0000_0000u64)) >> 32u64)) >> 32u64) == x & 0xFFFF_FFFFu64
        && (((x << 32u64) | ((f ^ (x & 0xFFFF_FFFF_0000_0000u64)) >> 32u64)) & 0xFFFF_FFFFu64) == (x >> 32u64)
        ^ (f >> 32u64)) by (bit_vector);
}

/// The DES key schedule, for every key: permuted choice 1 gives the 28-bit halves C0 and
/// D0 (the top and bottom of the 56 selected bits); each step rotates both halves left by
/// SHIFTS[n] within 28 bits; subkey i is permuted choice 2 of (C(i+1), D(i+1)).
pub proof fn lemma_des_key_schedule(key: u64, n: nat)
    requires
        n < 16,
    ensures
        key_halves(key, 0) == (
            (permute_bits(key, PC1, 56) >> 8u64) >> 28u64,
            (permute_bits(key, PC1, 56) >> 8u64) & 0x0FFFFFFFu64,
        ),
        key_halves(key, n + 1) == ({
            let (c, d) = key_halves(key, n);
            let s = SHIFTS[n as int] as u64;
            (
                ((c << s) | (c >> ((28 - s) as u64))) & 0x0FFFFFFFu64,
                ((d << s) | (d >> ((28 - s) as u64))) & 0x0FFFFFFFu64,
            )
        }),
        des_subkey(key, n) == ({
            let (c, d) = key_halves(key, n + 1);
            permute_bits(((c << 28u64) | d) << 8u64, PC2, 48)
        }),
{
    lemma_des_tables();
    assert(SHIFTS[n as int] <= 28);
}

} // verus!
