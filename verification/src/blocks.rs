use vstd::prelude::*;
use crate::libaes::{aes_decrypt_spec, aes_encrypt_spec, AES128};
use crate::libdes::{decrypt, des_decrypt_spec, des_encrypt_spec, encrypt, lemma_des_decrypt_encrypt};
use crate::libsm4::{sm4_decrypt_spec, sm4_encrypt_spec, SM4};

verus! {

/// The number of `size`-byte blocks that hold `len` bytes, the last one possibly partial.
pub open spec fn block_count(len: nat, size: nat) -> nat {
    if len % size == 0 {
        len / size
    } else {
        len / size + 1
    }
}

/// Block `i` of `text`: bytes `i * size ..` of the text, zero past its end.
pub open spec fn padded_block(text: Seq<u8>, i: int, size: int) -> Seq<u8> {
    Seq::new(size as nat, |k: int| if i * size + k < text.len() { text[i * size + k] } else { 0u8 })
}

/// The concatenation of `f` applied to each of the first `n` zero-padded `size`-byte
/// blocks of `text`.
pub open spec fn cipher_blocks(text: Seq<u8>, size: nat, f: spec_fn(Seq<u8>) -> Seq<u8>, n: nat) -> Seq<u8>
    decreases n,
{
    if n == 0 {
        Seq::empty()
    } else {
        cipher_blocks(text, size, f, (n - 1) as nat) + f(padded_block(text, n - 1, size as int))
    }
}

/// The big-endian 64-bit value of eight bytes.
pub open spec fn be_u64(b: Seq<u8>) -> u64 {
    ((b[0] as u64) << 56u64) | ((b[1] as u64) << 48u64) | ((b[2] as u64) << 40u64) | ((b[3] as u64)
        << 32u64) | ((b[4] as u64) << 24u64) | ((b[5] as u64) << 16u64) | ((b[6] as u64) << 8u64) | (
    b[7] as u64)
}

/// The eight big-endian bytes of `x`.
pub open spec fn u64_be_bytes(x: u64) -> Seq<u8> {
    Seq::new(8, |k: int| (x >> ((56 - 8 * k) as u64)) as u8)
}

/// DES on the big-endian value of an 8-byte block, with the subkeys `keys`.
pub open spec fn des_block_spec(keys: Seq<u64>, encrypt: bool, b: Seq<u8>) -> Seq<u8> {
    u64_be_bytes(
        if encrypt {
            des_encrypt_spec(be_u64(b), keys)
        } else {
            des_decrypt_spec(be_u64(b), keys)
        },
    )
}

proof fn lemma_block_bounds(len: nat, size: nat, i: nat)
    requires
        size > 0,
        i < block_count(len, size),
    ensures
        i * size <= len,
        i + 1 < block_count(len, size) ==> (i + 1) * size <= len,
        i + 1 == block_count(len, size) ==> len - i * size <= size,
{
    lemma_block_count(len, size);
    assert(i * size <= len && (i + 1 == block_count(len, size) ==> len - i * size <= size)) by (nonlinear_arith)
        requires
            i < block_count(len, size),
            block_count(len, size) * size < len + size,
            size > 0,
    ;
    if i + 1 < block_count(len, size) {
        assert(((i as int + 1) * size) <= len);
    }
}

proof fn lemma_block_count(len: nat, size: nat)
    requires
        size > 0,
    ensures
        block_count(len, size) * size >= len,
        block_count(len, size) * size < len + size,
        len > 0 ==> block_count(len, size) > 0,
        forall|i: int| 0 <= i < block_count(len, size) - 1 ==> #[trigger] ((i + 1) * size) <= len,
{
    vstd::arithmetic::div_mod::lemma_fundamental_div_mod(len as int, size as int);
    let q = len / size;
    let r = len % size;
    assert(block_count(len, size) * size >= len && block_count(len, size) * size < len + size
        && (len > 0 ==> block_count(len, size) > 0)) by (nonlinear_arith)
        requires
            len == size * q + r,
            0 <= r < size,
            block_count(len, size) == if r == 0 { q } else { q + 1 },
    ;
    assert forall|i: int| 0 <= i < block_count(len, size) - 1 implies #[trigger] ((i + 1) * size) <= len by {
        assert((i + 1) * size <= q * size) by (nonlinear_arith)
            requires
                i + 1 <= q,
                size > 0,
        ;
        assert(q * size <= len) by (nonlinear_arith)
            requires
                len == size * q + r,
                0 <= r,
        ;
    }
}

/// Bytes `start .. end` of `text` at the front of a zeroed 16-byte block.
fn copy_block16(text: &[u8], start: usize, end: usize) -> (block: [u8; 16])
    requires
        start <= end <= text@.len(),
        end - start <= 16,
    ensures
        block@ == Seq::new(16, |k: int| if k < end - start { text@[start + k] } else { 0u8 }),
{
    let mut block = [0u8; 16];
    for k in 0..end - start
        invariant
            start <= end <= text@.len(),
            end - start <= 16,
            forall|j: int| 0 <= j < 16 ==> #[trigger] block[j] == if j < k { text@[start + j] } else { 0u8 },
    {
        block[k] = text[start + k];
    }
    proof {
        assert(block@ =~= Seq::new(16, |k: int| if k < end - start { text@[start + k] } else { 0u8 }));
    }
    block
}

/// Bytes `start .. end` of `text` at the front of a zeroed 8-byte block.
fn copy_block8(text: &[u8], start: usize, end: usize) -> (block: [u8; 8])
    requires
        start <= end <= text@.len(),
        end - start <= 8,
    ensures
        block@ == Seq::new(8, |k: int| if k < end - start { text@[start + k] } else { 0u8 }),
{
    let mut block = [0u8; 8];
    for k in 0..end - start
        invariant
            start <= end <= text@.len(),
            end - start <= 8,
            forall|j: int| 0 <= j < 8 ==> #[trigger] block[j] == if j < k { text@[start + j] } else { 0u8 },
    {
        block[k] = text[start + k];
    }
    proof {
        assert(block@ =~= Seq::new(8, |k: int| if k < end - start { text@[start + k] } else { 0u8 }));
    }
    block
}

/// `u64::from_be_bytes`: the big-endian value of eight bytes.
fn be_bytes_to_u64(b: &[u8; 8]) -> (x: u64)
    ensures
        x == be_u64(b@),
{
    (b[0] as u64) << 56 | (b[1] as u64) << 48 | (b[2] as u64) << 40 | (b[3] as u64) << 32
        | (b[4] as u64) << 24 | (b[5] as u64) << 16 | (b[6] as u64) << 8 | (b[7] as u64)
}

/// `u64::to_be_bytes`: the eight big-endian bytes of `x`.
fn u64_to_be_bytes(x: u64) -> (b: [u8; 8])
    ensures
        b@ == u64_be_bytes(x),
{
    let mut b = [0u8; 8];
    for k in 0..8usize
        invariant
            forall|j: int| 0 <= j < k ==> #[trigger] b[j] == (x >> ((56 - 8 * j) as u64)) as u8,
    {
        b[k] = (x >> (56 - 8 * k)) as u8;
    }
    proof {
        assert(b@ =~= u64_be_bytes(x));
    }
    b
}

fn append_block16(res: &mut Vec<u8>, out: &[u8; 16])
    ensures
        final(res)@ == old(res)@ + out@,
{
    let ghost before = res@;
    for k in 0..16
        invariant
            res@ == before + out@.take(k as int),
    {
        proof {
            assert(out@.take(k + 1) =~= out@.take(k as int).push(out@[k as int]));
        }
        res.push(out[k]);
    }
    proof {
        assert(out@.take(16) =~= out@);
    }
}

fn append_block8(res: &mut Vec<u8>, out: &[u8; 8])
    ensures
        final(res)@ == old(res)@ + out@,
{
    let ghost before = res@;
    for k in 0..8
        invariant
            res@ == before + out@.take(k as int),
    {
        proof {
            assert(out@.take(k + 1) =~= out@.take(k as int).push(out@[k as int]));
        }
        res.push(out[k]);
    }
    proof {
        assert(out@.take(8) =~= out@);
    }
}

/// Encrypts (`is_encrypt`) or decrypts the text block by block, as the AES program does
/// with its input file: the text is cut into 16-byte blocks, the last one zero-padded.
pub fn aes_crypt_blocks(aes: &AES128, text: &[u8], is_encrypt: bool) -> (res: Vec<u8>)
    ensures
        res@ == cipher_blocks(text@, 16, (|b: Seq<u8>| if is_encrypt { aes_encrypt_spec(aes@, b) } else { aes_decrypt_spec(aes@, b) }), block_count(text@.len(), 16)),
{
    proof {
        lemma_block_count(text@.len(), 16);
    }
    let block_num = if text.len() % 16 == 0 {
        text.len() / 16
    } else {
        text.len() / 16 + 1
    };
    let ghost f = (|b: Seq<u8>| if is_encrypt { aes_encrypt_spec(aes@, b) } else { aes_decrypt_spec(aes@, b) });
    let mut res: Vec<u8> = Vec::new();
    assert(text@.len() <= usize::MAX);

    for i in 0..block_num
        invariant
            block_num == block_count(text@.len(), 16),
            text@.len() <= usize::MAX,
            f == (|b: Seq<u8>| if is_encrypt { aes_encrypt_spec(aes@, b) } else { aes_decrypt_spec(aes@, b) }),
            res@ == cipher_blocks(text@, 16, f, i as nat),
    {
        proof {
            lemma_block_bounds(text@.len(), 16, i as nat);
        }
        let end = if i == block_num - 1 {
            text.len()
        } else {
            proof {
                assert((i + 1) * 16 <= text@.len());
            }
            (i + 1) * 16
        };
        let block = copy_block16(text, i * 16, end);
        proof {
            assert(block@ =~= padded_block(text@, i as int, 16));
        }
        let out = if is_encrypt {
            aes.encrypt_block_AES128(&block)
        } else {
            aes.decrypt_block_AES128(&block)
        };
        append_block16(&mut res, &out);
    }
    res
}

/// Encrypts (`is_encrypt`) or decrypts the text block by block, as the SM4 program does
/// with its input file: the text is cut into 16-byte blocks, the last one zero-padded.
pub fn sm4_crypt_blocks(sm4: &SM4, text: &[u8], is_encrypt: bool) -> (res: Vec<u8>)
    ensures
        res@ == cipher_blocks(text@, 16, (|b: Seq<u8>| if is_encrypt { sm4_encrypt_spec(sm4@, b) } else { sm4_decrypt_spec(sm4@, b) }), block_count(text@.len(), 16)),
{
    proof {
        lemma_block_count(text@.len(), 16);
    }
    let block_num = if text.len() % 16 == 0 {
        text.len() / 16
    } else {
        text.len() / 16 + 1
    };
    let ghost f = (|b: Seq<u8>| if is_encrypt { sm4_encrypt_spec(sm4@, b) } else { sm4_decrypt_spec(sm4@, b) });
    let mut res: Vec<u8> = Vec::new();
    assert(text@.len() <= usize::MAX);

    for i in 0..block_num
        invariant
            block_num == block_count(text@.len(), 16),
            text@.len() <= usize::MAX,
            f == (|b: Seq<u8>| if is_encrypt { sm4_encrypt_spec(sm4@, b) } else { sm4_decrypt_spec(sm4@, b) }),
            res@ == cipher_blocks(text@, 16, f, i as nat),
    {
        proof {
            lemma_block_bounds(text@.len(), 16, i as nat);
        }
        let end = if i == block_num - 1 {
            text.len()
        } else {
            proof {
                assert((i + 1) * 16 <= text@.len());
            }
            (i + 1) * 16
        };
        let block = copy_block16(text, i * 16, end);
        proof {
            assert(block@ =~= padded_block(text@, i as int, 16));
        }
        let out = if is_encrypt {
            sm4.encrypt(&block)
        } else {
            sm4.decrypt(&block)
        };
        append_block16(&mut res, &out);
    }
    res
}

/// Encrypts (`is_encrypt`) or decrypts the text block by block, as the DES program does
/// with its input file: the text is cut into 8-byte blocks, the last one zero-padded.
pub fn des_crypt_blocks(keys: [u64; 16], text: &[u8], is_encrypt: bool) -> (res: Vec<u8>)
    ensures
        res@ == cipher_blocks(text@, 8, (|b: Seq<u8>| des_block_spec(keys@, is_encrypt, b)), block_count(text@.len(), 8)),
{
    proof {
        lemma_block_count(text@.len(), 8);
    }
    let block_num = if text.len() % 8 == 0 {
        text.len() / 8
    } else {
        text.len() / 8 + 1
    };
    let ghost f = (|b: Seq<u8>| des_block_spec(keys@, is_encrypt, b));
    let mut res: Vec<u8> = Vec::new();
    assert(text@.len() <= usize::MAX);

    for i in 0..block_num
        invariant
            block_num == block_count(text@.len(), 8),
            text@.len() <= usize::MAX,
            f == (|b: Seq<u8>| des_block_spec(keys@, is_encrypt, b)),
            res@ == cipher_blocks(text@, 8, f, i as nat),
    {
        proof {
            lemma_block_bounds(text@.len(), 8, i as nat);
        }
        let end = if i == block_num - 1 {
            text.len()
        } else {
            proof {
                assert((i + 1) * 8 <= text@.len());
            }
            (i + 1) * 8
        };
        let block = copy_block8(text, i * 8, end);
        proof {
            assert(block@ =~= padded_block(text@, i as int, 8));
        }
        let value = be_bytes_to_u64(&block);
        let value = if is_encrypt {
            encrypt(value, keys)
        } else {
            decrypt(value, keys)
        };
        let out = u64_to_be_bytes(value);
        append_block8(&mut res, &out);
    }
    res
}

/// The text followed by zeros up to a whole number of `size`-byte blocks.
pub open spec fn zero_padded(text: Seq<u8>, size: nat) -> Seq<u8> {
    Seq::new(size * block_count(text.len(), size), |m: int| if m < text.len() { text[m] } else { 0u8 })
}

/// Reading eight bytes as a big-endian word and writing the word back, in either order,
/// changes nothing.
proof fn lemma_be_u64_roundtrip(b: Seq<u8>, x: u64)
    requires
        b.len() == 8,
    ensures
        u64_be_bytes(be_u64(b)) == b,
        be_u64(u64_be_bytes(x)) == x,
{
    let (b0, b1, b2, b3, b4, b5, b6, b7) = (b[0], b[1], b[2], b[3], b[4], b[5], b[6], b[7]);
    let w = be_u64(b);
    assert((w >> 56u64) as u8 == b0 && (w >> 48u64) as u8 == b1 && (w >> 40u64) as u8 == b2
        && (w >> 32u64) as u8 == b3 && (w >> 24u64) as u8 == b4 && (w >> 16u64) as u8 == b5
        && (w >> 8u64) as u8 == b6 && (w >> 0u64) as u8 == b7) by (bit_vector)
        requires
            w == ((b0 as u64) << 56u64) | ((b1 as u64) << 48u64) | ((b2 as u64) << 40u64) | ((
            b3 as u64) << 32u64) | ((b4 as u64) << 24u64) | ((b5 as u64) << 16u64) | ((b6 as u64)
                << 8u64) | (b7 as u64),
    ;
    assert(u64_be_bytes(w) =~= b);
    let c = u64_be_bytes(x);
    assert(((((x >> 56u64) as u8) as u64) << 56u64) | ((((x >> 48u64) as u8) as u64) << 48u64) | ((
    ((x >> 40u64) as u8) as u64) << 40u64) | ((((x >> 32u64) as u8) as u64) << 32u64) | ((((x
        >> 24u64) as u8) as u64) << 24u64) | ((((x >> 16u64) as u8) as u64) << 16u64) | ((((x
        >> 8u64) as u8) as u64) << 8u64) | (((x >> 0u64) as u8) as u64) == x) by (bit_vector);
}

proof fn lemma_cipher_blocks_len(text: Seq<u8>, size: nat, f: spec_fn(Seq<u8>) -> Seq<u8>, n: nat)
    requires
        forall|b: Seq<u8>| #[trigger] f(b).len() == size,
    ensures
        cipher_blocks(text, size, f, n).len() == size * n,
    decreases n,
{
    if n > 0 {
        lemma_cipher_blocks_len(text, size, f, (n - 1) as nat);
        assert(f(padded_block(text, n - 1, size as int)).len() == size);
        assert(size * (n - 1) + size == size * n) by (nonlinear_arith);
    } else {
        assert(size * n == 0) by (nonlinear_arith)
            requires
                n == 0,
        ;
    }
}

/// Block `i` of the output of `cipher_blocks` is `f` of block `i` of the text.
proof fn lemma_cipher_blocks_block(text: Seq<u8>, f: spec_fn(Seq<u8>) -> Seq<u8>, n: nat, i: nat)
    requires
        i < n,
        forall|b: Seq<u8>| #[trigger] f(b).len() == 8,
    ensures
        padded_block(cipher_blocks(text, 8, f, n), i as int, 8) == f(padded_block(text, i as int, 8)),
    decreases n,
{
    lemma_cipher_blocks_len(text, 8, f, n);
    lemma_cipher_blocks_len(text, 8, f, (n - 1) as nat);
    let out = cipher_blocks(text, 8, f, n);
    let prev = cipher_blocks(text, 8, f, (n - 1) as nat);
    if i + 1 < n {
        lemma_cipher_blocks_block(text, f, (n - 1) as nat, i);
        assert forall|k: int| 0 <= k < 8 implies #[trigger] padded_block(out, i as int, 8)[k] == padded_block(prev, i as int, 8)[k] by {
            assert(out[8 * i + k] == prev[8 * i + k]);
        }
        assert(padded_block(out, i as int, 8) =~= padded_block(prev, i as int, 8));
    } else {
        assert(padded_block(out, i as int, 8) =~= f(padded_block(text, i as int, 8)));
    }
}

/// Decrypting the DES-encrypted text block by block gives the text, zero-padded to whole
/// 8-byte blocks.
pub proof fn lemma_des_blocks_roundtrip(keys: Seq<u64>, text: Seq<u8>)
    ensures
        cipher_blocks(
            cipher_blocks(text, 8, (|b: Seq<u8>| des_block_spec(keys, true, b)), block_count(text.len(), 8)),
            8,
            (|b: Seq<u8>| des_block_spec(keys, false, b)),
            block_count(
                cipher_blocks(text, 8, (|b: Seq<u8>| des_block_spec(keys, true, b)), block_count(text.len(), 8)).len(),
                8,
            ),
        ) == zero_padded(text, 8),
{
    let enc_f = |b: Seq<u8>| des_block_spec(keys, true, b);
    let dec_f = |b: Seq<u8>| des_block_spec(keys, false, b);
    let count = block_count(text.len(), 8);
    let enc = cipher_blocks(text, 8, enc_f, count);
    assert forall|b: Seq<u8>| #[trigger] enc_f(b).len() == 8 by {}
    assert forall|b: Seq<u8>| #[trigger] dec_f(b).len() == 8 by {}
    lemma_cipher_blocks_len(text, 8, enc_f, count);
    assert(block_count(enc.len(), 8) == count);
    lemma_dec_prefix(keys, text, count);
}

proof fn lemma_dec_prefix(keys: Seq<u64>, text: Seq<u8>, n: nat)
    requires
        n <= block_count(text.len(), 8),
    ensures
        cipher_blocks(
            cipher_blocks(text, 8, (|b: Seq<u8>| des_block_spec(keys, true, b)), block_count(text.len(), 8)),
            8,
            (|b: Seq<u8>| des_block_spec(keys, false, b)),
            n,
        ) == zero_padded(text, 8).take(8 * n as int),
    decreases n,
{
    let enc_f = |b: Seq<u8>| des_block_spec(keys, true, b);
    let dec_f = |b: Seq<u8>| des_block_spec(keys, false, b);
    let count = block_count(text.len(), 8);
    let enc = cipher_blocks(text, 8, enc_f, count);
    let target = zero_padded(text, 8);
    lemma_block_count(text.len(), 8);
    if n == 0 {
        assert(target.take(0) =~= Seq::<u8>::empty());
    } else {
        let i = (n - 1) as nat;
        lemma_dec_prefix(keys, text, i);
        assert forall|b: Seq<u8>| #[trigger] enc_f(b).len() == 8 by {}
        lemma_cipher_blocks_block(text, enc_f, count, i);
        let pb = padded_block(text, i as int, 8);
        lemma_be_u64_roundtrip(pb, 0);
        let v = be_u64(pb);
        let e = des_encrypt_spec(v, keys);
        lemma_be_u64_roundtrip(pb, e);
        lemma_des_decrypt_encrypt(v, keys);
        lemma_be_u64_roundtrip(pb, v);
        assert(dec_f(enc_f(pb)) == pb);
        assert(target.take(8 * n as int) =~= target.take(8 * i as int) + pb);
    }
}

} // verus!
