use vstd::prelude::*;
use crate::shift::{shift_char, shift_char_ok, shift_char_spec, lemma_shift_char_inverse};
use vstd::arithmetic::div_mod::{
    lemma_add_mod_noop_right, lemma_fundamental_div_mod, lemma_fundamental_div_mod_converse_div,
    lemma_fundamental_div_mod_converse_mod, lemma_mod_bound,
};

verus! {

/// `String::push` appends the character at the end, as std documents.
pub assume_specification[ String::push ](s: &mut String, ch: char)
    ensures
        final(s)@ == old(s)@.push(ch),
;

/// Every character of `text` shifted by `key`.
pub open spec fn caesar_spec(text: Seq<char>, key: u8) -> Seq<char> {
    Seq::new(text.len(), |i: int| shift_char_spec(text[i], key))
}

/// Caesar encryption: every letter moved `key` places forward.
pub fn caesar_encrypt(text: &str, key: u8) -> (r: String)
    requires
        forall|i: int| 0 <= i < text@.len() ==> #[trigger] shift_char_ok(text@[i], key),
    ensures
        r@ == caesar_spec(text@, key),
        r@.len() == text@.len(),
        forall|i: int| 0 <= i < text@.len() ==> #[trigger] r@[i] == shift_char_spec(text@[i], key),
{
    let mut result = String::new();
    for c in it: text.chars()
        invariant
            it.seq() == text@,
            forall|i: int| 0 <= i < text@.len() ==> #[trigger] shift_char_ok(text@[i], key),
            result@ == caesar_spec(text@, key).take(it.index() as int),
    {
        result.push(shift_char(c, key));
    }
    result
}

/// Caesar decryption: every letter moved `key` places back (`26 - key` forward).
pub fn caesar_decrypt(text: &str, key: u8) -> (r: String)
    requires
        text@.len() == 0 || key <= 26,
    ensures
        r@ == caesar_spec(text@, (26 - key) as u8),
        r@.len() == text@.len(),
        forall|i: int| 0 <= i < text@.len() ==> #[trigger] r@[i] == shift_char_spec(text@[i], (26 - key) as u8),
{
    let mut result = String::new();
    for c in it: text.chars()
        invariant
            it.seq() == text@,
            text@.len() == 0 || key <= 26,
            result@ == caesar_spec(text@, (26 - key) as u8).take(it.index() as int),
    {
        proof {
            lemma_shift_char_inverse(c, (26 - key) as u8);
            assert(shift_char_ok(c, (26 - key) as u8)) by {
                lemma_shift_char_inverse(c, 0);
            }
        }
        result.push(shift_char(c, 26 - key));
    }
    result
}

/// Caesar decryption with the same key gives back the text, for keys up to 26.
pub proof fn lemma_caesar_roundtrip(text: Seq<char>, key: u8)
    requires
        key <= 26,
    ensures
        forall|i: int| 0 <= i < text.len() ==> #[trigger] shift_char_ok(text[i], key),
        forall|i: int| 0 <= i < text.len() ==> #[trigger] shift_char_ok(caesar_spec(text, key)[i], (26 - key) as u8),
        caesar_spec(caesar_spec(text, key), (26 - key) as u8) == text,
{
    assert forall|i: int| 0 <= i < text.len() implies #[trigger] shift_char_ok(text[i], key)
        && shift_char_ok(caesar_spec(text, key)[i], (26 - key) as u8)
        && caesar_spec(caesar_spec(text, key), (26 - key) as u8)[i] == text[i] by {
        lemma_shift_char_inverse(text[i], key);
    }
    assert(caesar_spec(caesar_spec(text, key), (26 - key) as u8) =~= text);
}

/// The place in the key of the key character used for character `n` of the text.
pub open spec fn key_place(key_len: nat, n: int) -> int {
    n % (key_len as int)
}

/// The shift that the key gives to character `n` of the text: the low byte of key
/// character `n % key_len` minus the code of 'a'.
pub open spec fn vigenere_shift(key: Seq<char>, key_len: nat, n: int) -> int {
    (key[key_place(key_len, n)] as u8) - 97
}

/// The inputs on which `transform` does not panic: the key (of `key_len` bytes) has a
/// character at each place that the text reaches, that character is at least 'a' in its
/// low byte, and for decryption the shift is at most 26.
pub open spec fn transform_ok(text: Seq<char>, key: Seq<char>, key_len: nat, encrypt: bool) -> bool {
    &&& text.len() > 0 ==> key_len > 0
    &&& forall|n: int|
        0 <= n < text.len() ==> {
            &&& #[trigger] key_place(key_len, n) < key.len()
            &&& vigenere_shift(key, key_len, n) >= 0
            &&& !encrypt ==> vigenere_shift(key, key_len, n) <= 26
        }
}

/// Character `n` of the text shifted by the key's shift for `n` (encryption) or by 26 minus it.
pub open spec fn transform_spec(text: Seq<char>, key: Seq<char>, key_len: nat, encrypt: bool) -> Seq<char> {
    Seq::new(
        text.len(),
        |n: int|
            shift_char_spec(
                text[n],
                if encrypt {
                    vigenere_shift(key, key_len, n) as u8
                } else {
                    (26 - vigenere_shift(key, key_len, n)) as u8
                },
            ),
    )
}

/// Vigenère decryption with the same key gives back the text, whenever decryption is
/// defined on the ciphertext (every key shift at most 26).
pub proof fn lemma_vigenere_roundtrip(text: Seq<char>, key: Seq<char>, key_len: nat)
    requires
        transform_ok(text, key, key_len, false),
    ensures
        transform_ok(text, key, key_len, true),
        transform_ok(transform_spec(text, key, key_len, true), key, key_len, false),
        transform_spec(transform_spec(text, key, key_len, true), key, key_len, false) == text,
{
    let enc = transform_spec(text, key, key_len, true);
    assert forall|n: int| 0 <= n < text.len() implies {
        &&& #[trigger] key_place(key_len, n) < key.len()
        &&& vigenere_shift(key, key_len, n) >= 0
        &&& vigenere_shift(key, key_len, n) <= 26
    } by {
        assert(key_place(key_len, n) < key.len());
    }
    assert forall|n: int| 0 <= n < text.len() implies #[trigger] transform_spec(enc, key, key_len, false)[n] == text[n] by {
        assert(key_place(key_len, n) < key.len());
        lemma_shift_char_inverse(text[n], vigenere_shift(key, key_len, n) as u8);
    }
    assert(transform_spec(enc, key, key_len, false) =~= text);
}

/// The characters of `s`.
fn str_to_chars(s: &str) -> (v: Vec<char>)
    ensures
        v@ == s@,
{
    let mut v: Vec<char> = Vec::new();
    for c in it: s.chars()
        invariant
            it.seq() == s@,
            v@ == s@.take(it.index() as int),
    {
        v.push(c);
    }
    v
}

/// Vigenère encryption.
pub fn vigenere_encrypt(text: &str, key: &str) -> (r: String)
    requires
        transform_ok(text@, key@, key.len() as nat, true),
    ensures
        r@ == transform_spec(text@, key@, key.len() as nat, true),
{
    transform(text, key, true)
}

/// Vigenère decryption.
pub fn vigenere_decrypt(text: &str, key: &str) -> (r: String)
    requires
        transform_ok(text@, key@, key.len() as nat, false),
    ensures
        r@ == transform_spec(text@, key@, key.len() as nat, false),
{
    transform(text, key, false)
}

/// Shifts each character of `text` by the key character at the same place, the key
/// repeated; forward for encryption, back for decryption.
pub fn transform(text: &str, key: &str, encrypt: bool) -> (r: String)
    requires
        transform_ok(text@, key@, key.len() as nat, encrypt),
    ensures
        r@ == transform_spec(text@, key@, key.len() as nat, encrypt),
{
    let key_len = key.len();
    let key_chars = str_to_chars(key);
    let mut result = String::new();

    let mut alpha_count: usize = 0;
    for c in it: text.chars()
        invariant
            it.seq() == text@,
            key_chars@ == key@,
            key_len == key.len(),
            key_len > 0 ==> alpha_count == key_place(key_len as nat, it.index() as int),
            transform_ok(text@, key@, key_len as nat, encrypt),
            result@ == transform_spec(text@, key@, key_len as nat, encrypt).take(it.index() as int),
    {
        let ghost n = it.index() as int;
        proof {
            assert(key_place(key_len as nat, n) < key@.len());
            lemma_mod_bound(n, key_len as int);
        }
        let key_char = key_chars[alpha_count];

        alpha_count = (alpha_count + 1) % key_len;
        proof {
            lemma_add_mod_noop_right(1, n, key_len as int);
        }
        let key_shift = key_char as u8 - 'a' as u8;

        let new_char = if encrypt {
            shift_char(c, key_shift)
        } else {
            shift_char(c, 26 - key_shift)
        };

        result.push(new_char);
    }

    result
}

/// The characters of `s` other than DEL ('\x7f'), in order.
pub open spec fn without_del(s: Seq<char>) -> Seq<char>
    decreases s.len(),
{
    if s.len() == 0 {
        s
    } else if s.last() != '\x7f' {
        without_del(s.drop_last()).push(s.last())
    } else {
        without_del(s.drop_last())
    }
}

/// The rail-fence grid of encryption, read rail by rail: `rails` rails of `row` cells,
/// cell `i` of rail `j` holding character `i * rails + j` of the text.
pub open spec fn fence_encrypt_grid(text: Seq<char>, row: nat, rails: nat) -> Seq<char> {
    Seq::new(row * rails, |k: int| text[(k % (row as int)) * (rails as int) + k / (row as int)])
}

/// Rail-fence encryption of `text`, whose UTF-8 length is `len`: the first
/// `(len / rails) * rails` characters written across the rails and read rail by rail,
/// DEL characters dropped.
pub open spec fn fence_encrypt_spec(text: Seq<char>, len: nat, rails: nat) -> Seq<char> {
    without_del(fence_encrypt_grid(text, len / rails, rails))
}

/// The grid of decryption: character `m` is `text[(m % rails) * row + m / rails]`.
pub open spec fn fence_decrypt_grid(text: Seq<char>, row: nat, rails: nat) -> Seq<char> {
    Seq::new(row * rails, |m: int| text[(m % (rails as int)) * (row as int) + m / (rails as int)])
}

/// Rail-fence decryption of `text`, whose UTF-8 length is `len`, DEL characters dropped.
pub open spec fn fence_decrypt_spec(text: Seq<char>, len: nat, rails: nat) -> Seq<char> {
    without_del(fence_decrypt_grid(text, len / rails, rails))
}

proof fn lemma_grid_cell(i: int, j: int, row: int, rails: int)
    requires
        0 <= i < row,
        0 <= j < rails,
    ensures
        (j * row + i) % row == i,
        (j * row + i) / row == j,
        0 <= j * row + i < row * rails,
        (i * rails + j) % rails == j,
        (i * rails + j) / rails == i,
        0 <= i * rails + j < row * rails,
{
    lemma_fundamental_div_mod_converse_div(j * row + i, row, j, i);
    lemma_fundamental_div_mod_converse_mod(j * row + i, row, j, i);
    lemma_fundamental_div_mod_converse_div(i * rails + j, rails, i, j);
    lemma_fundamental_div_mod_converse_mod(i * rails + j, rails, i, j);
    assert(0 <= j * row + i < row * rails && 0 <= i * rails + j < row * rails) by (nonlinear_arith)
        requires
            0 <= i < row,
            0 <= j < rails,
    ;
}

proof fn lemma_without_del_step(s: Seq<char>, i: int)
    requires
        0 <= i < s.len(),
    ensures
        without_del(s.take(i + 1)) == if s[i] != '\x7f' {
            without_del(s.take(i)).push(s[i])
        } else {
            without_del(s.take(i))
        },
{
    assert(s.take(i + 1).drop_last() =~= s.take(i));
}

/// The characters of `v` other than DEL, as a string.
fn push_without_del(v: &Vec<char>) -> (r: String)
    ensures
        r@ == without_del(v@),
{
    let mut result = String::new();
    for i in 0..v.len()
        invariant
            result@ == without_del(v@.take(i as int)),
    {
        proof {
            lemma_without_del_step(v@, i as int);
        }
        if v[i] != '\x7f' {
            result.push(v[i])
        }
    }
    proof {
        assert(v@.take(v.len() as int) =~= v@);
    }
    result
}

/// Rail-fence encryption with `rail_count` rails.
pub fn fence_encrypt(plaintext: &str, rail_count: usize) -> (r: String)
    requires
        rail_count > 0,
        (plaintext.len() / rail_count) * rail_count <= plaintext@.len(),
    ensures
        r@ == fence_encrypt_spec(plaintext@, plaintext.len() as nat, rail_count as nat),
{
    let chars = str_to_chars(plaintext);
    let row = plaintext.len() / rail_count;
    proof {
        assert(row * rail_count <= plaintext.len()) by (nonlinear_arith)
            requires
                row == plaintext.len() / rail_count,
                rail_count > 0,
        ;
    }
    let size = row * rail_count;
    let mut result_vec = vec!['\x7f'; size];
    proof {
        assert forall|k: int| 0 <= k < size implies #[trigger] result_vec@[k] == '\x7f' by {
            assert(cloned('\x7f', result_vec@[k]));
        }
        assert(0 * rail_count == 0);
    }
    let ghost grid = fence_encrypt_grid(plaintext@, row as nat, rail_count as nat);

    let mut index: usize = 0;

    for i in 0..row
        invariant
            row == plaintext.len() / rail_count,
            size == row * rail_count,
            size <= plaintext.len(),
            size <= chars@.len(),
            chars@ == plaintext@,
            grid == fence_encrypt_grid(plaintext@, row as nat, rail_count as nat),
            index == i * rail_count,
            result_vec@.len() == size,
            forall|k: int| 0 <= k < size ==> #[trigger] result_vec@[k] == if k % (row as int) < i {
                grid[k]
            } else {
                '\x7f'
            },
    {
        for j in 0..rail_count
            invariant
                i < row,
                row == plaintext.len() / rail_count,
                size == row * rail_count,
                size <= plaintext.len(),
                size <= chars@.len(),
                chars@ == plaintext@,
                grid == fence_encrypt_grid(plaintext@, row as nat, rail_count as nat),
                index == i * rail_count + j,
                result_vec@.len() == size,
                forall|k: int| 0 <= k < size ==> #[trigger] result_vec@[k] == if k % (row as int) < i || (k % (row as int) == i && k / (row as int) < j) {
                    grid[k]
                } else {
                    '\x7f'
                },
        {
            proof {
                lemma_grid_cell(i as int, j as int, row as int, rail_count as int);
            }
            if index < plaintext.len() {
                result_vec[j * row + i] = chars[index];
                index += 1;
            }
            proof {
                assert forall|k: int| 0 <= k < size implies #[trigger] result_vec@[k] == if k % (row as int) < i || (k % (row as int) == i && k / (row as int) < j + 1) {
                    grid[k]
                } else {
                    '\x7f'
                } by {
                    if k != j * row + i && k % (row as int) == i && k / (row as int) == j {
                        lemma_fundamental_div_mod(k, row as int);
                        assert((row as int) * j == j * (row as int)) by (nonlinear_arith);
                    }
                }
            }
        }
        proof {
            assert(index == (i + 1) * rail_count) by (nonlinear_arith)
                requires
                    index == i * rail_count + rail_count,
            ;
            assert forall|k: int| 0 <= k < size implies #[trigger] (k / (row as int)) < rail_count by {
                lemma_fundamental_div_mod(k, row as int);
                let q = k / (row as int);
                let m = k % (row as int);
                assert(q < rail_count) by (nonlinear_arith)
                    requires
                        k == (row as int) * q + m,
                        0 <= m,
                        k < size,
                        size == row * rail_count,
                        row > 0,
                ;
            }
        }
    }
    proof {
        assert(result_vec@ =~= grid);
    }
    push_without_del(&result_vec)
}

/// Rail-fence decryption with `rail_count` rails.
pub fn fence_decrypt(ciphertext: &str, rail_count: usize) -> (r: String)
    requires
        rail_count > 0,
        ciphertext.len() % rail_count == 0,
        ciphertext.len() <= ciphertext@.len(),
    ensures
        r@ == fence_decrypt_spec(ciphertext@, ciphertext.len() as nat, rail_count as nat),
{
    let chars = str_to_chars(ciphertext);
    let row = ciphertext.len() / rail_count;
    proof {
        lemma_fundamental_div_mod(ciphertext.len() as int, rail_count as int);
        assert(rail_count * row == row * rail_count) by (nonlinear_arith);
    }
    let size = row * rail_count;
    let d_size = size - ciphertext.len();
    let mut result_vec = vec!['\x7f'; size];
    proof {
        assert forall|k: int| 0 <= k < size implies #[trigger] result_vec@[k] == '\x7f' by {
            assert(cloned('\x7f', result_vec@[k]));
        }
        assert(0 * rail_count == 0);
    }
    let ghost grid = fence_decrypt_grid(ciphertext@, row as nat, rail_count as nat);

    let mut index: usize = 0;

    for i in 0..row
        invariant
            row == ciphertext.len() / rail_count,
            size == row * rail_count,
            size == ciphertext.len(),
            d_size == 0,
            size <= chars@.len(),
            chars@ == ciphertext@,
            grid == fence_decrypt_grid(ciphertext@, row as nat, rail_count as nat),
            index == i * rail_count,
            result_vec@.len() == size,
            forall|m: int| 0 <= m < size ==> #[trigger] result_vec@[m] == if m < index {
                grid[m]
            } else {
                '\x7f'
            },
    {
        let mut cipher_idx: usize = 0;
        proof {
            assert(0 * row == 0);
        }
        for j in 0..rail_count
            invariant
                i < row,
                row == ciphertext.len() / rail_count,
                size == row * rail_count,
                size == ciphertext.len(),
                d_size == 0,
                size <= chars@.len(),
                chars@ == ciphertext@,
                grid == fence_decrypt_grid(ciphertext@, row as nat, rail_count as nat),
                index == i * rail_count + j,
                cipher_idx == j * row,
                result_vec@.len() == size,
                forall|m: int| 0 <= m < size ==> #[trigger] result_vec@[m] == if m < index {
                    grid[m]
                } else {
                    '\x7f'
                },
        {
            proof {
                lemma_grid_cell(i as int, j as int, row as int, rail_count as int);
                assert(j * row + row <= size) by (nonlinear_arith)
                    requires
                        j < rail_count,
                        size == row * rail_count,
                ;
            }
            result_vec[index] = chars[cipher_idx + i];
            if j < rail_count - d_size && index < ciphertext.len() {
                cipher_idx += row;
            } else {
                cipher_idx += row - 1;
            }
            index += 1;
            proof {
                assert(cipher_idx == (j + 1) * row) by (nonlinear_arith)
                    requires
                        cipher_idx == j * row + row,
                ;
            }
        }
        proof {
            assert(index == (i + 1) * rail_count) by (nonlinear_arith)
                requires
                    index == i * rail_count + rail_count,
            ;
        }
    }
    proof {
        assert(index == size);
        assert(result_vec@ =~= grid);
    }
    push_without_del(&result_vec)
}

/// A sequence without DEL characters is left as it is.
proof fn lemma_without_del_none(s: Seq<char>)
    requires
        forall|i: int| 0 <= i < s.len() ==> #[trigger] s[i] != '\x7f',
    ensures
        without_del(s) == s,
    decreases s.len(),
{
    if s.len() > 0 {
        lemma_without_del_none(s.drop_last());
        assert(s.drop_last().push(s.last()) =~= s);
    }
}

/// Rail-fence decryption undoes encryption on a text without DEL characters whose
/// length is a multiple of the number of rails, each character counted as one byte
/// (as in ASCII text).
pub proof fn lemma_fence_roundtrip(t: Seq<char>, rails: nat)
    requires
        rails > 0,
        t.len() % rails == 0,
        forall|i: int| 0 <= i < t.len() ==> #[trigger] t[i] != '\x7f',
    ensures
        fence_encrypt_spec(t, t.len(), rails).len() == t.len(),
        fence_decrypt_spec(fence_encrypt_spec(t, t.len(), rails), t.len(), rails) == t,
{
    let n = t.len() as int;
    let r = rails as int;
    let row = (t.len() / rails) as int;
    lemma_fundamental_div_mod(n, r);
    assert(row * r == n) by (nonlinear_arith)
        requires
            n == r * (n / r) + n % r,
            n % r == 0,
            row == n / r,
    ;
    let g = fence_encrypt_grid(t, row as nat, rails);
    assert forall|k: int| 0 <= k < g.len() implies #[trigger] g[k] != '\x7f' by {
        lemma_fundamental_div_mod(k, row);
        let i = k % row;
        let j = k / row;
        assert(0 <= j < r) by (nonlinear_arith)
            requires
                k == row * j + i,
                0 <= i < row,
                0 <= k < row * r,
        ;
        lemma_grid_cell(i, j, row, r);
    }
    lemma_without_del_none(g);
    let d = fence_decrypt_grid(g, row as nat, rails);
    assert forall|m: int| 0 <= m < n implies #[trigger] d[m] == t[m] by {
        lemma_fundamental_div_mod(m, r);
        let j = m % r;
        let i = m / r;
        assert(0 <= i < row) by (nonlinear_arith)
            requires
                m == r * i + j,
                0 <= j < r,
                0 <= m < row * r,
        ;
        lemma_grid_cell(i, j, row, r);
        assert(r * i == i * r) by (nonlinear_arith);
    }
    lemma_without_del_none(d);
    assert(d =~= t);
}

/// Caesar encryption shifts every character by the key, position by position: the
/// output has the text's length and character `i` is character `i` of the text shifted.
pub proof fn lemma_caesar_chars(text: Seq<char>, key: u8)
    ensures
        caesar_spec(text, key).len() == text.len(),
        forall|i: int| 0 <= i < text.len() ==> #[trigger] caesar_spec(text, key)[i] == shift_char_spec(text[i], key),
{
}

/// Vigenère shifts character `n` of the text by the key character at place `n % key_len`
/// (its low byte minus 'a'), forward for encryption and by 26 minus that for decryption.
pub proof fn lemma_vigenere_chars(text: Seq<char>, key: Seq<char>, key_len: nat, encrypt: bool)
    ensures
        transform_spec(text, key, key_len, encrypt).len() == text.len(),
        forall|n: int|
            0 <= n < text.len() ==> #[trigger] transform_spec(text, key, key_len, encrypt)[n] == shift_char_spec(
                text[n],
                if encrypt {
                    ((key[n % (key_len as int)] as u8) - 97) as u8
                } else {
                    (26 - ((key[n % (key_len as int)] as u8) - 97)) as u8
                },
            ),
{
}

/// Rail-fence encryption of a text without DEL whose length is a multiple of the number
/// of rails: with `row = len / rails`, character `i * rails + j` of the text lands at
/// place `j * row + i` of the output, which has the text's length.
pub proof fn lemma_fence_placement(t: Seq<char>, rails: nat)
    requires
        rails > 0,
        t.len() % rails == 0,
        forall|i: int| 0 <= i < t.len() ==> #[trigger] t[i] != '\x7f',
    ensures
        fence_encrypt_spec(t, t.len(), rails).len() == t.len(),
        forall|i: int, j: int|
            0 <= i < (t.len() as int) / (rails as int) && 0 <= j < rails ==> #[trigger] fence_encrypt_spec(t, t.len(), rails)[j * ((t.len() as int) / (rails as int)) + i] == t[i * (rails as int) + j],
{
    let n = t.len() as int;
    let r = rails as int;
    let row = (t.len() / rails) as int;
    lemma_fundamental_div_mod(n, r);
    assert(row * r == n) by (nonlinear_arith)
        requires
            n == r * (n / r) + n % r,
            n % r == 0,
            row == n / r,
    ;
    let g = fence_encrypt_grid(t, row as nat, rails);
    assert forall|k: int| 0 <= k < g.len() implies #[trigger] g[k] != '\x7f' by {
        lemma_fundamental_div_mod(k, row);
        let i = k % row;
        let j = k / row;
        assert(0 <= j < r) by (nonlinear_arith)
            requires
                k == row * j + i,
                0 <= i < row,
                0 <= k < row * r,
        ;
        lemma_grid_cell(i, j, row, r);
    }
    lemma_without_del_none(g);
    assert forall|i: int, j: int| 0 <= i < row && 0 <= j < r implies #[trigger] fence_encrypt_spec(t, t.len(), rails)[j * row + i] == t[i * r + j] by {
        lemma_grid_cell(i, j, row, r);
    }
}

} // verus!
