use vstd::prelude::*;
use crate::consts::{SM4_CK, SM4_FK, SM4_SBOX};

verus! {

/// Four 32-bit words of SM4 state.
pub type Words = (u32, u32, u32, u32);

/// The big-endian word made of bytes `o .. o + 4` of `b`.
pub open spec fn be_word(b: Seq<u8>, o: int) -> u32 {
    ((b[o] as u32) << 24u32) | ((b[o + 1] as u32) << 16u32) | ((b[o + 2] as u32) << 8u32) | (b[o
        + 3] as u32)
}

/// The four big-endian bytes of `w`.
pub open spec fn word_bytes(w: u32) -> Seq<u8> {
    seq![(w >> 24u32) as u8, (w >> 16u32) as u8, (w >> 8u32) as u8, w as u8]
}

/// The four words of a 16-byte block, in order.
pub open spec fn block_words(b: Seq<u8>) -> Words {
    (be_word(b, 0), be_word(b, 4), be_word(b, 8), be_word(b, 12))
}

/// The output block of the state `x`: its words in reverse order.
pub open spec fn words_block(x: Words) -> Seq<u8> {
    word_bytes(x.3) + word_bytes(x.2) + word_bytes(x.1) + word_bytes(x.0)
}

/// The state XOR-ed word by word with the system parameter FK.
pub open spec fn xor_fk(x: Words) -> Words {
    (x.0 ^ SM4_FK[0], x.1 ^ SM4_FK[1], x.2 ^ SM4_FK[2], x.3 ^ SM4_FK[3])
}

/// The S-box applied to each byte of a word.
pub open spec fn tau(a: u32) -> u32 {
    ((SM4_SBOX[(a >> 24u32) as int] as u32) << 24u32) | ((SM4_SBOX[((a >> 16u32) & 0xff) as int]
        as u32) << 16u32) | ((SM4_SBOX[((a >> 8u32) & 0xff) as int] as u32) << 8u32) | (SM4_SBOX[(a
        & 0xff) as int] as u32)
}

/// Rotation of `x` to the left by `n` places.
pub open spec fn rol32_spec(x: u32, n: u32) -> u32 {
    (x << n) | (x >> ((32 - n) as u32))
}

/// The linear transformation of the encryption rounds.
pub open spec fn lin_enc(x: u32) -> u32 {
    x ^ rol32_spec(x, 2) ^ rol32_spec(x, 10) ^ rol32_spec(x, 18) ^ rol32_spec(x, 24)
}

/// The linear transformation of the key schedule.
pub open spec fn lin_key(x: u32) -> u32 {
    x ^ rol32_spec(x, 13) ^ rol32_spec(x, 23)
}

/// One encryption round with round key `rk`.
pub open spec fn sm4_step(x: Words, rk: u32) -> Words {
    (x.1, x.2, x.3, x.0 ^ lin_enc(tau(x.1 ^ x.2 ^ x.3 ^ rk)))
}

/// The encryption rounds with the round keys of `rks`, in order.
pub open spec fn sm4_rounds(x: Words, rks: Seq<u32>) -> Words
    decreases rks.len(),
{
    if rks.len() == 0 {
        x
    } else {
        sm4_step(sm4_rounds(x, rks.drop_last()), rks.last())
    }
}

/// The key-schedule state after `n` of its 32 steps.
pub open spec fn key_state(key: Seq<u8>, n: nat) -> Words
    decreases n,
{
    if n == 0 {
        xor_fk(block_words(key))
    } else {
        let x = key_state(key, (n - 1) as nat);
        (x.1, x.2, x.3, x.0 ^ lin_key(tau(x.1 ^ x.2 ^ x.3 ^ SM4_CK[n - 1])))
    }
}

/// The 32 round keys that the key schedule derives from `key`.
pub open spec fn sm4_key_schedule(key: Seq<u8>) -> Seq<u32> {
    Seq::new(32, |i: int| key_state(key, (i + 1) as nat).3)
}

/// SM4 encryption of the block `input` with the round keys `rks`.
#[verifier::opaque]
pub open spec fn sm4_encrypt_spec(rks: Seq<u32>, input: Seq<u8>) -> Seq<u8> {
    words_block(sm4_rounds(block_words(input), rks))
}

/// What `SM4::decrypt` computes: FK is XOR-ed into the input words, then the rounds run
/// with the round keys in reverse order.
#[verifier::opaque]
pub open spec fn sm4_decrypt_spec(rks: Seq<u32>, input: Seq<u8>) -> Seq<u8> {
    words_block(sm4_rounds(xor_fk(block_words(input)), rks.reverse()))
}

/// The block `b` XOR-ed byte by byte with the big-endian bytes of FK.
pub open spec fn xor_fk_block(b: Seq<u8>) -> Seq<u8> {
    let fk = word_bytes(SM4_FK[0]) + word_bytes(SM4_FK[1]) + word_bytes(SM4_FK[2]) + word_bytes(
        SM4_FK[3],
    );
    Seq::new(16, |i: int| b[i] ^ fk[i])
}

/// The big-endian word at bytes `o .. o + 4`.
fn getu32(b: &[u8; 16], o: usize) -> (w: u32)
    requires
        o + 4 <= 16,
    ensures
        w == be_word(b@, o as int),
{
    (b[o] as u32) << 24 | (b[o + 1] as u32) << 16 | (b[o + 2] as u32) << 8 | (b[o + 3] as u32)
}

/// Writes `value` big-endian at bytes `o .. o + 4`.
fn putu32(b: &mut [u8; 16], o: usize, value: u32)
    requires
        o + 4 <= 16,
    ensures
        final(b)@ == old(b)@.update(o as int, (value >> 24u32) as u8).update(
            o + 1,
            (value >> 16u32) as u8,
        ).update(o + 2, (value >> 8u32) as u8).update(o + 3, value as u8),
{
    b[o] = (value >> 24) as u8;
    b[o + 1] = (value >> 16) as u8;
    b[o + 2] = (value >> 8) as u8;
    b[o + 3] = value as u8;
}

/// Rotation to the left by `n` places.
fn rol32(x: u32, n: u32) -> (r: u32)
    requires
        0 < n < 32,
    ensures
        r == rol32_spec(x, n),
{
    (x << n) | (x >> (32 - n))
}

/// The linear transformation of the encryption rounds.
fn l32(x: u32) -> (r: u32)
    ensures
        r == lin_enc(x),
{
    x ^ rol32(x, 2) ^ rol32(x, 10) ^ rol32(x, 18) ^ rol32(x, 24)
}

/// The linear transformation of the key schedule.
fn l32_2(x: u32) -> (r: u32)
    ensures
        r == lin_key(x),
{
    x ^ rol32(x, 13) ^ rol32(x, 23)
}

/// The S-box applied to each byte of a word.
fn s32(a: u32) -> (r: u32)
    ensures
        r == tau(a),
{
    proof {
        assert((a >> 24u32) < 256 && ((a >> 16u32) & 0xff) < 256 && ((a >> 8u32) & 0xff) < 256
            && (a & 0xff) < 256) by (bit_vector);
    }
    (SM4_SBOX[(a >> 24) as usize] as u32) << 24 | (SM4_SBOX[((a >> 16) & 0xff) as usize] as u32)
        << 16 | (SM4_SBOX[((a >> 8) & 0xff) as usize] as u32) << 8 | (SM4_SBOX[(a & 0xff) as usize]
        as u32)
}

/// The bytes of the output state, its last word first.
fn put_state(x: &[u32; 5]) -> (res: [u8; 16])
    ensures
        res@ == words_block((x[0], x[1], x[2], x[3])),
{
    let mut res = [0u8; 16];
    putu32(&mut res, 0, x[3]);
    putu32(&mut res, 4, x[2]);
    putu32(&mut res, 8, x[1]);
    putu32(&mut res, 12, x[0]);
    proof {
        assert(res@ =~= words_block((x[0], x[1], x[2], x[3])));
    }
    res
}

/// An SM4 cipher with its 32 round keys.
pub struct SM4 {
    encrypt_key: [u32; 32],
}

impl View for SM4 {
    type V = Seq<u32>;

    /// The round keys, in the order of encryption.
    closed spec fn view(&self) -> Seq<u32> {
        self.encrypt_key@
    }
}

impl SM4 {
    /// The cipher for the 16-byte key `keys`.
    pub fn new(keys: &[u8; 16]) -> (r: SM4)
        ensures
            r@ == sm4_key_schedule(keys@),
    {
        return SM4 { encrypt_key: sm4_gen_encrypt_keys(keys) };
    }

    /// Encrypts one 16-byte block.
    pub fn encrypt(&self, input: &[u8; 16]) -> (res: [u8; 16])
        ensures
            res@ == sm4_encrypt_spec(self@, input@),
    {
        proof {
            reveal(sm4_encrypt_spec);
        }
        let mut x: [u32; 5] = [0;5];

        x[0] = getu32(input, 0);
        x[1] = getu32(input, 4);
        x[2] = getu32(input, 8);
        x[3] = getu32(input, 12);
        let ghost x0 = block_words(input@);

        for i in 0..32
            invariant
                (x[0], x[1], x[2], x[3]) == sm4_rounds(x0, self.encrypt_key@.take(i as int)),
        {
            proof {
                assert(self.encrypt_key@.take(i + 1).drop_last() =~= self.encrypt_key@.take(
                    i as int,
                ));
            }
            x[4] = x[1] ^ x[2] ^ x[3] ^ self.encrypt_key[i];
            x[4] = s32(x[4]);
            x[4] = x[0] ^ l32(x[4]);

            x[0] = x[1];
            x[1] = x[2];
            x[2] = x[3];
            x[3] = x[4];
        }
        proof {
            assert(self.encrypt_key@.take(32) =~= self.encrypt_key@);
        }
        put_state(&x)
    }

    /// Decrypts one 16-byte block: FK is XOR-ed into the input words and the rounds run
    /// with the round keys in reverse order.
    pub fn decrypt(&self, input: &[u8; 16]) -> (res: [u8; 16])
        ensures
            res@ == sm4_decrypt_spec(self@, input@),
    {
        proof {
            reveal(sm4_decrypt_spec);
        }
        let mut x: [u32; 5] = [0;5];

        x[0] = getu32(input, 0) ^ SM4_FK[0];
        x[1] = getu32(input, 4) ^ SM4_FK[1];
        x[2] = getu32(input, 8) ^ SM4_FK[2];
        x[3] = getu32(input, 12) ^ SM4_FK[3];
        let ghost x0 = xor_fk(block_words(input@));
        let ghost rev = self.encrypt_key@.reverse();

        for i in 0..32
            invariant
                rev == self.encrypt_key@.reverse(),
                (x[0], x[1], x[2], x[3]) == sm4_rounds(x0, rev.take(i as int)),
        {
            proof {
                assert(rev.take(i + 1).drop_last() =~= rev.take(i as int));
            }
            let k = self.encrypt_key[31 - i];
            x[4] = x[1] ^ x[2] ^ x[3] ^ k;
            x[4] = s32(x[4]);
            x[4] = x[0] ^ l32(x[4]);

            x[0] = x[1];
            x[1] = x[2];
            x[2] = x[3];
            x[3] = x[4];
        }
        proof {
            assert(rev.take(32) =~= rev);
        }
        put_state(&x)
    }
}

/// The 32 round keys of the key `uk`.
fn sm4_gen_encrypt_keys(uk: &[u8; 16]) -> (keys: [u32; 32])
    ensures
        keys@ == sm4_key_schedule(uk@),
{
    let mut x: [u32; 5] = [0;5];
    let mut keys: [u32; 32] = [0;32];
    x[0] = getu32(uk, 0) ^ SM4_FK[0];
    x[1] = getu32(uk, 4) ^ SM4_FK[1];
    x[2] = getu32(uk, 8) ^ SM4_FK[2];
    x[3] = getu32(uk, 12) ^ SM4_FK[3];

    for i in 0..32
        invariant
            (x[0], x[1], x[2], x[3]) == key_state(uk@, i as nat),
            forall|j: int| 0 <= j < i ==> #[trigger] keys[j] == key_state(uk@, (j + 1) as nat).3,
    {
        x[4] = x[1] ^ x[2] ^ x[3] ^ SM4_CK[i];
        x[4] = s32(x[4]);
        x[4] = x[0] ^ l32_2(x[4]);

        keys[i] = x[4];

        x[0] = x[1];
        x[1] = x[2];
        x[2] = x[3];
        x[3] = x[4];
    }
    proof {
        assert(keys@ =~= sm4_key_schedule(uk@));
    }
    return keys;
}

/// The state with its words in reverse order.
pub open spec fn reverse_words(x: Words) -> Words {
    (x.3, x.2, x.1, x.0)
}

/// A round undoes itself on the state with its words reversed.
proof fn lemma_step_reverse(x: Words, k: u32)
    ensures
        sm4_step(reverse_words(sm4_step(x, k)), k) == reverse_words(x),
{
    let z = lin_enc(tau(x.1 ^ x.2 ^ x.3 ^ k));
    let y = x.0 ^ z;
    let (x0, x1, x2, x3) = x;
    assert(x3 ^ x2 ^ x1 ^ k == x1 ^ x2 ^ x3 ^ k && (x0 ^ z) ^ z == x0) by (bit_vector);
}

proof fn lemma_sm4_rounds_prefix(x: Words, k: u32, rest: Seq<u32>)
    ensures
        sm4_rounds(x, seq![k] + rest) == sm4_rounds(sm4_step(x, k), rest),
    decreases rest.len(),
{
    if rest.len() == 0 {
        assert((seq![k] + rest).drop_last() =~= Seq::<u32>::empty());
        assert((seq![k] + rest).last() == k);
        assert(sm4_rounds(x, Seq::<u32>::empty()) == x);
    } else {
        lemma_sm4_rounds_prefix(x, k, rest.drop_last());
        assert((seq![k] + rest).drop_last() =~= seq![k] + rest.drop_last());
        assert((seq![k] + rest).last() == rest.last());
    }
}

/// The rounds with the keys reversed undo the rounds on the reversed state.
proof fn lemma_sm4_rounds_reverse(x: Words, rks: Seq<u32>)
    ensures
        sm4_rounds(reverse_words(sm4_rounds(x, rks)), rks.reverse()) == reverse_words(x),
    decreases rks.len(),
{
    if rks.len() > 0 {
        let init = rks.drop_last();
        let k = rks.last();
        let e = sm4_rounds(x, init);
        assert(rks.reverse() =~= seq![k] + init.reverse());
        lemma_sm4_rounds_prefix(reverse_words(sm4_step(e, k)), k, init.reverse());
        lemma_step_reverse(e, k);
        lemma_sm4_rounds_reverse(x, init);
    }
}

/// Reading a word back from its bytes, and reading the FK-masked bytes.
proof fn lemma_word_bytes(w: u32, f: u32)
    ensures
        be_word(word_bytes(w), 0) == w,
        be_word(Seq::new(4, |i: int| word_bytes(w)[i] ^ word_bytes(f)[i]), 0) ^ f == w,
{
    let b0 = (w >> 24u32) as u8;
    let b1 = (w >> 16u32) as u8;
    let b2 = (w >> 8u32) as u8;
    let b3 = w as u8;
    let c0 = (f >> 24u32) as u8;
    let c1 = (f >> 16u32) as u8;
    let c2 = (f >> 8u32) as u8;
    let c3 = f as u8;
    assert(((b0 as u32) << 24u32) | ((b1 as u32) << 16u32) | ((b2 as u32) << 8u32) | (b3 as u32)
        == w && (((((b0 ^ c0) as u8) as u32) << 24u32) | ((((b1 ^ c1) as u8) as u32) << 16u32) | (
    (((b2 ^ c2) as u8) as u32) << 8u32) | (((b3 ^ c3) as u8) as u32)) ^ f == w) by (bit_vector)
        requires
            b0 == (w >> 24u32) as u8,
            b1 == (w >> 16u32) as u8,
            b2 == (w >> 8u32) as u8,
            b3 == w as u8,
            c0 == (f >> 24u32) as u8,
            c1 == (f >> 16u32) as u8,
            c2 == (f >> 8u32) as u8,
            c3 == f as u8,
    ;
    let s = Seq::new(4, |i: int| word_bytes(w)[i] ^ word_bytes(f)[i]);
    assert(s[0] == b0 ^ c0 && s[1] == b1 ^ c1 && s[2] == b2 ^ c2 && s[3] == b3 ^ c3);
}

/// Decryption undoes encryption once FK is XOR-ed into the ciphertext: `SM4::decrypt`
/// XORs FK into its input words, so it inverts `SM4::encrypt` on the masked block.
pub proof fn lemma_sm4_decrypt_encrypt(rks: Seq<u32>, block: Seq<u8>)
    requires
        block.len() == 16,
    ensures
        sm4_decrypt_spec(rks, xor_fk_block(sm4_encrypt_spec(rks, block))) == block,
{
    reveal(sm4_encrypt_spec);
    reveal(sm4_decrypt_spec);
    let x = block_words(block);
    let y = sm4_rounds(x, rks);
    let c = words_block(y);
    let m = xor_fk_block(c);
    lemma_word_bytes(y.3, SM4_FK[0]);
    lemma_word_bytes(y.2, SM4_FK[1]);
    lemma_word_bytes(y.1, SM4_FK[2]);
    lemma_word_bytes(y.0, SM4_FK[3]);
    assert(m.subrange(0, 4) =~= Seq::new(4, |i: int| word_bytes(y.3)[i] ^ word_bytes(SM4_FK[0])[i]));
    assert(m.subrange(4, 8) =~= Seq::new(4, |i: int| word_bytes(y.2)[i] ^ word_bytes(SM4_FK[1])[i]));
    assert(m.subrange(8, 12) =~= Seq::new(4, |i: int| word_bytes(y.1)[i] ^ word_bytes(SM4_FK[2])[i]));
    assert(m.subrange(12, 16) =~= Seq::new(4, |i: int| word_bytes(y.0)[i] ^ word_bytes(SM4_FK[3])[i]));
    assert(be_word(m, 0) == be_word(m.subrange(0, 4), 0));
    assert(be_word(m, 4) == be_word(m.subrange(4, 8), 0));
    assert(be_word(m, 8) == be_word(m.subrange(8, 12), 0));
    assert(be_word(m, 12) == be_word(m.subrange(12, 16), 0));
    assert(xor_fk(block_words(m)) == reverse_words(y));
    assert(rks.reverse().reverse() =~= rks);
    lemma_sm4_rounds_reverse(x, rks);
    lemma_block_words(block);
}

/// Splitting a block into words and writing the words back gives the block.
proof fn lemma_block_words(b: Seq<u8>)
    requires
        b.len() == 16,
    ensures
        words_block(reverse_words(block_words(b))) == b,
{
    assert forall|o: int| o == 0 || o == 4 || o == 8 || o == 12 implies word_bytes(be_word(b, o))
        =~= b.subrange(o, o + 4) by {
        let (b0, b1, b2, b3) = (b[o], b[o + 1], b[o + 2], b[o + 3]);
        let w = be_word(b, o);
        assert((w >> 24u32) as u8 == b0 && (w >> 16u32) as u8 == b1 && (w >> 8u32) as u8 == b2
            && w as u8 == b3) by (bit_vector)
            requires
                w == ((b0 as u32) << 24u32) | ((b1 as u32) << 16u32) | ((b2 as u32) << 8u32) | (
                b3 as u32),
        ;
    }
    assert(words_block(reverse_words(block_words(b))) =~= b.subrange(0, 4) + b.subrange(4, 8)
        + b.subrange(8, 12) + b.subrange(12, 16));
}

/// The SM4 S-box on each byte of `a`, then the round map
/// L(B) = B ^ (B <<< 2) ^ (B <<< 10) ^ (B <<< 18) ^ (B <<< 24), the rotations written out.
pub open spec fn sm4_round_transform(a: u32) -> u32 {
    let b = ((SM4_SBOX[(a >> 24u32) as int] as u32) << 24u32) | ((SM4_SBOX[((a >> 16u32) & 0xff) as int]
        as u32) << 16u32) | ((SM4_SBOX[((a >> 8u32) & 0xff) as int] as u32) << 8u32) | (SM4_SBOX[(a
        & 0xff) as int] as u32);
    b ^ ((b << 2u32) | (b >> 30u32)) ^ ((b << 10u32) | (b >> 22u32)) ^ ((b << 18u32) | (b >> 14u32))
        ^ ((b << 24u32) | (b >> 8u32))
}

/// The SM4 S-box on each byte of `a`, then the key-schedule map
/// L'(B) = B ^ (B <<< 13) ^ (B <<< 23), the rotations written out.
pub open spec fn sm4_key_transform(a: u32) -> u32 {
    let b = ((SM4_SBOX[(a >> 24u32) as int] as u32) << 24u32) | ((SM4_SBOX[((a >> 16u32) & 0xff) as int]
        as u32) << 16u32) | ((SM4_SBOX[((a >> 8u32) & 0xff) as int] as u32) << 8u32) | (SM4_SBOX[(a
        & 0xff) as int] as u32);
    b ^ ((b << 13u32) | (b >> 19u32)) ^ ((b << 23u32) | (b >> 9u32))
}

/// The big-endian word of the bytes `b0 b1 b2 b3`.
pub open spec fn bytes_word(b0: u8, b1: u8, b2: u8, b3: u8) -> u32 {
    ((b0 as u32) << 24u32) | ((b1 as u32) << 16u32) | ((b2 as u32) << 8u32) | (b3 as u32)
}

/// The linear maps of SM4, for every 32-bit word: the round map
/// L(B) = B ^ (B <<< 2) ^ (B <<< 10) ^ (B <<< 18) ^ (B <<< 24) and the key-schedule map
/// L'(B) = B ^ (B <<< 13) ^ (B <<< 23).
pub proof fn lemma_sm4_linear_maps(b: u32)
    ensures
        lin_enc(b) == b ^ ((b << 2u32) | (b >> 30u32)) ^ ((b << 10u32) | (b >> 22u32)) ^ ((b << 18u32)
            | (b >> 14u32)) ^ ((b << 24u32) | (b >> 8u32)),
        lin_key(b) == b ^ ((b << 13u32) | (b >> 19u32)) ^ ((b << 23u32) | (b >> 9u32)),
        lin_enc(tau(b)) == sm4_round_transform(b),
        lin_key(tau(b)) == sm4_key_transform(b),
{
}

/// One SM4 round: the state (X0, X1, X2, X3) with round key rk becomes
/// (X1, X2, X3, X0 ^ L(S(X1 ^ X2 ^ X3 ^ rk))), and no round leaves the state unchanged.
pub proof fn lemma_sm4_round(x: Words, rks: Seq<u32>, rk: u32)
    ensures
        sm4_rounds(x, Seq::<u32>::empty()) == x,
        sm4_rounds(x, rks.push(rk)) == ({
            let y = sm4_rounds(x, rks);
            (y.1, y.2, y.3, y.0 ^ sm4_round_transform(y.1 ^ y.2 ^ y.3 ^ rk))
        }),
{
    assert(rks.push(rk).drop_last() =~= rks);
    lemma_sm4_linear_maps(sm4_rounds(x, rks).1 ^ sm4_rounds(x, rks).2 ^ sm4_rounds(x, rks).3 ^ rk);
}

/// SM4 encryption reads the block as four big-endian words and writes the final state's
/// words in reverse order, big-endian.
pub proof fn lemma_sm4_encrypt_words(rks: Seq<u32>, b: Seq<u8>)
    requires
        b.len() == 16,
    ensures
        sm4_encrypt_spec(rks, b) == ({
            let y = sm4_rounds(
                (
                    bytes_word(b[0], b[1], b[2], b[3]),
                    bytes_word(b[4], b[5], b[6], b[7]),
                    bytes_word(b[8], b[9], b[10], b[11]),
                    bytes_word(b[12], b[13], b[14], b[15]),
                ),
                rks,
            );
            seq![
                (y.3 >> 24u32) as u8, (y.3 >> 16u32) as u8, (y.3 >> 8u32) as u8, y.3 as u8,
                (y.2 >> 24u32) as u8, (y.2 >> 16u32) as u8, (y.2 >> 8u32) as u8, y.2 as u8,
                (y.1 >> 24u32) as u8, (y.1 >> 16u32) as u8, (y.1 >> 8u32) as u8, y.1 as u8,
                (y.0 >> 24u32) as u8, (y.0 >> 16u32) as u8, (y.0 >> 8u32) as u8, y.0 as u8,
            ]
        }),
{
    reveal(sm4_encrypt_spec);
    let y = sm4_rounds(block_words(b), rks);
    assert(words_block(y) =~= seq![
        (y.3 >> 24u32) as u8, (y.3 >> 16u32) as u8, (y.3 >> 8u32) as u8, y.3 as u8,
        (y.2 >> 24u32) as u8, (y.2 >> 16u32) as u8, (y.2 >> 8u32) as u8, y.2 as u8,
        (y.1 >> 24u32) as u8, (y.1 >> 16u32) as u8, (y.1 >> 8u32) as u8, y.1 as u8,
        (y.0 >> 24u32) as u8, (y.0 >> 16u32) as u8, (y.0 >> 8u32) as u8, y.0 as u8,
    ]);
}

/// The key-schedule state after `n >= 4` steps holds the round keys `n - 4 .. n`.
proof fn lemma_key_state_keys(key: Seq<u8>, n: nat)
    requires
        4 <= n <= 32,
    ensures
        key_state(key, n) == ({
            let rk = sm4_key_schedule(key);
            (rk[n - 4], rk[n - 3], rk[n - 2], rk[n - 1])
        }),
    decreases n,
{
    if n > 4 {
        lemma_key_state_keys(key, (n - 1) as nat);
    }
}

/// The SM4 key schedule: with K0..K3 the key's big-endian words XOR FK, round key i is
/// K(i) ^ L'(S(K(i+1) ^ K(i+2) ^ K(i+3) ^ CK[i])), where K(i+4) is round key i; so for
/// i >= 4, rk[i] == rk[i-4] ^ L'(S(rk[i-3] ^ rk[i-2] ^ rk[i-1] ^ CK[i])).
pub proof fn lemma_sm4_key_schedule(key: Seq<u8>)
    requires
        key.len() == 16,
    ensures
        sm4_key_schedule(key).len() == 32,
        ({
            let rk = sm4_key_schedule(key);
            let k0 = bytes_word(key[0], key[1], key[2], key[3]) ^ SM4_FK[0];
            let k1 = bytes_word(key[4], key[5], key[6], key[7]) ^ SM4_FK[1];
            let k2 = bytes_word(key[8], key[9], key[10], key[11]) ^ SM4_FK[2];
            let k3 = bytes_word(key[12], key[13], key[14], key[15]) ^ SM4_FK[3];
            &&& rk[0] == k0 ^ sm4_key_transform(k1 ^ k2 ^ k3 ^ SM4_CK[0])
            &&& rk[1] == k1 ^ sm4_key_transform(k2 ^ k3 ^ rk[0] ^ SM4_CK[1])
            &&& rk[2] == k2 ^ sm4_key_transform(k3 ^ rk[0] ^ rk[1] ^ SM4_CK[2])
            &&& rk[3] == k3 ^ sm4_key_transform(rk[0] ^ rk[1] ^ rk[2] ^ SM4_CK[3])
        }),
        forall|i: int|
            4 <= i < 32 ==> #[trigger] sm4_key_schedule(key)[i] == sm4_key_schedule(key)[i - 4]
                ^ sm4_key_transform(
                sm4_key_schedule(key)[i - 3] ^ sm4_key_schedule(key)[i - 2] ^ sm4_key_schedule(
                    key,
                )[i - 1] ^ SM4_CK[i],
            ),
{
    let rk = sm4_key_schedule(key);
    assert forall|i: int| 0 <= i < 32 implies #[trigger] sm4_key_transform(
        key_state(key, i as nat).1 ^ key_state(key, i as nat).2 ^ key_state(key, i as nat).3 ^ SM4_CK[i],
    ) == lin_key(
        tau(key_state(key, i as nat).1 ^ key_state(key, i as nat).2 ^ key_state(key, i as nat).3 ^ SM4_CK[i]),
    ) by {
        lemma_sm4_linear_maps(key_state(key, i as nat).1 ^ key_state(key, i as nat).2 ^ key_state(key, i as nat).3 ^ SM4_CK[i]);
    }
    assert forall|i: int| 4 <= i < 32 implies #[trigger] rk[i] == rk[i - 4] ^ sm4_key_transform(
        rk[i - 3] ^ rk[i - 2] ^ rk[i - 1] ^ SM4_CK[i],
    ) by {
        lemma_key_state_keys(key, i as nat);
        assert(rk[i] == key_state(key, (i + 1) as nat).3);
    }
    assert(key_state(key, 1).3 == rk[0]);
    assert(key_state(key, 2).3 == rk[1]);
    assert(key_state(key, 3).3 == rk[2]);
    assert(key_state(key, 4).3 == rk[3]);
    assert(block_words(key) == (
        bytes_word(key[0], key[1], key[2], key[3]),
        bytes_word(key[4], key[5], key[6], key[7]),
        bytes_word(key[8], key[9], key[10], key[11]),
        bytes_word(key[12], key[13], key[14], key[15]),
    ));
    assert(sm4_key_transform(key_state(key, 0).1 ^ key_state(key, 0).2 ^ key_state(key, 0).3 ^ SM4_CK[0]) == lin_key(tau(key_state(key, 0).1 ^ key_state(key, 0).2 ^ key_state(key, 0).3 ^ SM4_CK[0])));
    assert(sm4_key_transform(key_state(key, 1).1 ^ key_state(key, 1).2 ^ key_state(key, 1).3 ^ SM4_CK[1]) == lin_key(tau(key_state(key, 1).1 ^ key_state(key, 1).2 ^ key_state(key, 1).3 ^ SM4_CK[1])));
    assert(sm4_key_transform(key_state(key, 2).1 ^ key_state(key, 2).2 ^ key_state(key, 2).3 ^ SM4_CK[2]) == lin_key(tau(key_state(key, 2).1 ^ key_state(key, 2).2 ^ key_state(key, 2).3 ^ SM4_CK[2])));
    assert(sm4_key_transform(key_state(key, 3).1 ^ key_state(key, 3).2 ^ key_state(key, 3).3 ^ SM4_CK[3]) == lin_key(tau(key_state(key, 3).1 ^ key_state(key, 3).2 ^ key_state(key, 3).3 ^ SM4_CK[3])));
}

/// SM4 decryption reads the block as four big-endian words, XORs FK[0..4] into them, runs
/// the rounds with the round keys in reverse order, and writes the final state's words in
/// reverse order, big-endian.
pub proof fn lemma_sm4_decrypt_words(rks: Seq<u32>, b: Seq<u8>)
    requires
        b.len() == 16,
    ensures
        sm4_decrypt_spec(rks, b) == ({
            let y = sm4_rounds(
                (
                    bytes_word(b[0], b[1], b[2], b[3]) ^ SM4_FK[0],
                    bytes_word(b[4], b[5], b[6], b[7]) ^ SM4_FK[1],
                    bytes_word(b[8], b[9], b[10], b[11]) ^ SM4_FK[2],
                    bytes_word(b[12], b[13], b[14], b[15]) ^ SM4_FK[3],
                ),
                Seq::new(rks.len(), |i: int| rks[rks.len() - 1 - i]),
            );
            seq![
                (y.3 >> 24u32) as u8, (y.3 >> 16u32) as u8, (y.3 >> 8u32) as u8, y.3 as u8,
                (y.2 >> 24u32) as u8, (y.2 >> 16u32) as u8, (y.2 >> 8u32) as u8, y.2 as u8,
                (y.1 >> 24u32) as u8, (y.1 >> 16u32) as u8, (y.1 >> 8u32) as u8, y.1 as u8,
                (y.0 >> 24u32) as u8, (y.0 >> 16u32) as u8, (y.0 >> 8u32) as u8, y.0 as u8,
            ]
        }),
{
    reveal(sm4_decrypt_spec);
    assert(rks.reverse() =~= Seq::new(rks.len(), |i: int| rks[rks.len() - 1 - i]));
    let y = sm4_rounds(xor_fk(block_words(b)), rks.reverse());
    assert(words_block(y) =~= seq![
        (y.3 >> 24u32) as u8, (y.3 >> 16u32) as u8, (y.3 >> 8u32) as u8, y.3 as u8,
        (y.2 >> 24u32) as u8, (y.2 >> 16u32) as u8, (y.2 >> 8u32) as u8, y.2 as u8,
        (y.1 >> 24u32) as u8, (y.1 >> 16u32) as u8, (y.1 >> 8u32) as u8, y.1 as u8,
        (y.0 >> 24u32) as u8, (y.0 >> 16u32) as u8, (y.0 >> 8u32) as u8, y.0 as u8,
    ]);
}

} // verus!
