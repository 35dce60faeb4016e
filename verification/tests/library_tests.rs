use crypto::blocks::{aes_crypt_blocks, des_crypt_blocks, sm4_crypt_blocks};
use crypto::classic::{
    caesar_decrypt, caesar_encrypt, fence_decrypt, fence_encrypt, vigenere_decrypt,
    vigenere_encrypt,
};
use crypto::gf::field_multiply;
use crypto::gen_s_box::{affineTransform, finite_field_matrix_multiply, generate_s_box};
use crypto::libaes::{
    add_round_key, inv_mix_columns, inv_shift_rows, inv_sub_bytes, mix_columns, shift_rows,
    sub_bytes, substitute, AES128,
};
use crypto::libdes::{decrypt, encrypt, get_subkeys, s_boxes};
use crypto::libsm4::SM4;
use crypto::shift::shift_char;
use crypto::utils::{addition_gf, get_one_bit_num, multiplication_gf};

fn hex16(s: &str) -> [u8; 16] {
    let mut out = [0u8; 16];
    for i in 0..16 {
        out[i] = u8::from_str_radix(&s[2 * i..2 * i + 2], 16).unwrap();
    }
    out
}

#[test]
fn aes_encrypts_the_fips_197_example() {
    let aes = AES128::new(&hex16("000102030405060708090a0b0c0d0e0f"));
    let out = aes.encrypt_block_AES128(&hex16("00112233445566778899aabbccddeeff"));
    assert_eq!(out, hex16("69c4e0d86a7b0430d8cdb78070b4c55a"));
}

#[test]
fn aes_encrypts_the_appendix_b_example() {
    let aes = AES128::new(&hex16("2b7e151628aed2a6abf7158809cf4f3c"));
    let out = aes.encrypt_block_AES128(&hex16("3243f6a8885a308d313198a2e0370734"));
    assert_eq!(out, hex16("3925841d02dc09fbdc118597196a0b32"));
}

#[test]
fn aes_round_trip_on_the_zero_block() {
    let aes = AES128::new(&[0u8; 16]);
    let out = aes.encrypt_block_AES128(&[0u8; 16]);
    assert_eq!(out, hex16("66e94bd4ef8a2c3b884cfa59ca342b2e"));
    assert_eq!(aes.decrypt_block_AES128(&out), [0u8; 16]);
    assert_eq!(aes.encrypt_block_AES128(&aes.decrypt_block_AES128(&out)), out);
}

#[test]
fn aes_steps_and_their_inverses() {
    let start: [[u8; 4]; 4] = [[0x19, 0xa0, 0x9a, 0xe9], [0x3d, 0xf4, 0xc6, 0xf8], [0xe3, 0xe2, 0x8d, 0x48], [0xbe, 0x2b, 0x2a, 0x08]];
    let mut s = start;
    sub_bytes(&mut s);
    assert_eq!(s, [[0xd4, 0xe0, 0xb8, 0x1e], [0x27, 0xbf, 0xb4, 0x41], [0x11, 0x98, 0x5d, 0x52], [0xae, 0xf1, 0xe5, 0x30]]);
    shift_rows(&mut s);
    assert_eq!(s, [[0xd4, 0xe0, 0xb8, 0x1e], [0xbf, 0xb4, 0x41, 0x27], [0x5d, 0x52, 0x11, 0x98], [0x30, 0xae, 0xf1, 0xe5]]);
    mix_columns(&mut s);
    assert_eq!(s, [[0x04, 0xe0, 0x48, 0x28], [0x66, 0xcb, 0xf8, 0x06], [0x81, 0x19, 0xd3, 0x26], [0xe5, 0x9a, 0x7a, 0x4c]]);
    inv_mix_columns(&mut s);
    inv_shift_rows(&mut s);
    inv_sub_bytes(&mut s);
    assert_eq!(s, start);
    let key = [[1u8, 2, 3, 4], [5, 6, 7, 8], [9, 10, 11, 12], [13, 14, 15, 16]];
    add_round_key(&mut s, &key);
    assert_eq!(s[0][1], start[0][1] ^ key[1][0]);
    add_round_key(&mut s, &key);
    assert_eq!(s, start);
}

#[test]
fn inv_mix_columns_does_not_undo_mix_columns_on_a_zero_byte() {
    let mut s = [[1u8; 4]; 4];
    s[0][0] = 0;
    mix_columns(&mut s);
    assert_eq!(s, [[1u8; 4]; 4]);
    inv_mix_columns(&mut s);
    assert_eq!(s, [[1u8; 4]; 4]);
}

#[test]
fn substitute_and_its_inverse() {
    assert_eq!(substitute(0x00, true), 0x63);
    assert_eq!(substitute(0x53, true), 0xed);
    assert_eq!(substitute(0x63, false), 0x00);
    for b in 0..=255u8 {
        assert_eq!(substitute(substitute(b, true), false), b);
        assert_eq!(substitute(substitute(b, false), true), b);
    }
}

#[test]
fn gf_multiplication_through_the_tables() {
    assert_eq!(multiplication_gf(2, 3), 6);
    assert_eq!(multiplication_gf(0x57, 0x83), 0xc1);
    // the logarithms of 0x1b and 0x10 add up to 300, which wraps to 45
    assert_eq!(multiplication_gf(0x1b, 0x10), 0xab);
    // the table logarithm of 0 is 0, so a zero factor acts as 1
    assert_eq!(multiplication_gf(0, 5), 5);
    assert_eq!(multiplication_gf(0, 0), 1);
}

#[test]
fn gf_addition_and_bit_count() {
    assert_eq!(addition_gf(&[1, 2, 3, 4], &[4, 3, 2, 1]), [5, 1, 1, 5]);
    assert_eq!(get_one_bit_num(0), 0);
    assert_eq!(get_one_bit_num(0xFF), 8);
    assert_eq!(get_one_bit_num(u64::MAX), 64);
    assert_eq!(get_one_bit_num(0x8000_0000_0000_0001), 2);
}

#[test]
fn des_known_answer_and_round_trip() {
    let keys = get_subkeys(0x133457799BBCDFF1);
    assert_eq!(keys[0], 0x1B02EFFC7072 << 16);
    let c = encrypt(0x0123456789ABCDEF, keys);
    assert_eq!(c, 0x85E813540F0AB405);
    assert_eq!(decrypt(c, keys), 0x0123456789ABCDEF);
    let keys = get_subkeys(0xdeadbeef01234567);
    for x in [0u64, 1, u64::MAX, 0x0011223344556677] {
        assert_eq!(decrypt(encrypt(x, keys), keys), x);
    }
}

#[test]
fn sm4_known_answer() {
    let block = hex16("0123456789abcdeffedcba9876543210");
    let sm4 = SM4::new(&block);
    let c = sm4.encrypt(&block);
    assert_eq!(c, hex16("681edf34d206965e86b3e94f536e4246"));
}

#[test]
fn sm4_decrypt_xors_fk_into_its_input() {
    let block = hex16("0123456789abcdeffedcba9876543210");
    let sm4 = SM4::new(&block);
    let c = sm4.encrypt(&block);
    assert_eq!(sm4.decrypt(&c), hex16("6ee792ad8ad1c0d816fe13de3c1c8848"));
    let fk = hex16("a3b1bac656aa3350677d9197b27022dc");
    let mut masked = c;
    for i in 0..16 {
        masked[i] ^= fk[i];
    }
    assert_eq!(sm4.decrypt(&masked), block);
}

#[test]
fn shift_char_cases() {
    assert_eq!(shift_char('a', 1), 'b');
    assert_eq!(shift_char('z', 1), 'a');
    assert_eq!(shift_char('A', 25), 'Z');
    assert_eq!(shift_char('Y', 30), 'C');
    assert_eq!(shift_char('5', 3), '5');
    assert_eq!(shift_char(' ', 200), ' ');
}

#[test]
fn caesar_scenario_and_round_trip() {
    let c = caesar_encrypt("Hello, World!", 3);
    assert_eq!(c, "Khoor, Zruog!");
    assert_eq!(caesar_decrypt(&c, 3), "Hello, World!");
    assert_eq!(caesar_decrypt("", 200), "");
}

#[test]
fn vigenere_scenario_and_round_trip() {
    let c = vigenere_encrypt("attackatdawn", "lemon");
    assert_eq!(c, "lxfopvefrnhr");
    assert_eq!(vigenere_decrypt(&c, "lemon"), "attackatdawn");
    assert_eq!(vigenere_encrypt("Hi there", "b"), "Ij uifsf");
}

#[test]
fn fence_scenario_and_round_trip() {
    assert_eq!(fence_encrypt("abcdef", 2), "acebdf");
    assert_eq!(fence_decrypt("acebdf", 2), "abcdef");
    assert_eq!(fence_encrypt("abcde", 2), "acbd");
    let text = "WEAREDISCOVEREDFLEEATONCE!";
    let c = fence_encrypt(text, 13);
    assert_eq!(fence_decrypt(&c, 13), text);
}

#[test]
fn s_box_design_matrix_product_is_over_gf2() {
    assert_eq!(finite_field_matrix_multiply(&0), 0);
    assert_eq!(finite_field_matrix_multiply(&1), 0x83);
    assert_eq!(finite_field_matrix_multiply(&0x80), 0xC1);
}

#[test]
fn s_box_design_affine_step_is_a_bijection() {
    assert_eq!(affineTransform(0), 0x54);
    assert_eq!(affineTransform(1), 0xD7);
    let mut seen = [false; 256];
    for x in 0..=255u8 {
        let y = affineTransform(x);
        assert!(!seen[y as usize]);
        seen[y as usize] = true;
    }
}

#[test]
fn s_box_design_power_then_affine_step() {
    let s_box = generate_s_box();
    assert_eq!(
        s_box[0..16],
        [0x54, 0xD7, 0xED, 0x8B, 0xF2, 0xD3, 0x32, 0xBC, 0xFD, 0x28, 0xB5, 0x9F, 0x94, 0x9E, 0xA6, 0x2A]
    );
    assert_eq!(s_box[255], 0x2C);
    let mut seen = [false; 256];
    for &y in s_box.iter() {
        assert!(!seen[y as usize]);
        seen[y as usize] = true;
    }
}

#[test]
fn field_multiplication_of_the_fips_197_example() {
    assert_eq!(field_multiply(0x57, 0x83), 0xC1);
    assert_eq!(field_multiply(0, 0x83), 0);
    assert_eq!(field_multiply(0x57, 1), 0x57);
}

#[test]
fn block_modes_pad_and_process_each_block() {
    let text: Vec<u8> = (0..20u8).collect();
    let aes = AES128::new(&[7u8; 16]);
    let out = aes_crypt_blocks(&aes, &text, true);
    assert_eq!(out.len(), 32);
    let mut first = [0u8; 16];
    first.copy_from_slice(&text[0..16]);
    assert_eq!(&out[0..16], &aes.encrypt_block_AES128(&first)[..]);
    let mut second = [0u8; 16];
    second[0..4].copy_from_slice(&text[16..20]);
    assert_eq!(&out[16..32], &aes.encrypt_block_AES128(&second)[..]);
    assert!(aes_crypt_blocks(&aes, &[], true).is_empty());

    let sm4 = SM4::new(&[9u8; 16]);
    let out = sm4_crypt_blocks(&sm4, &text[0..16], true);
    assert_eq!(&out[..], &sm4.encrypt(&first)[..]);

    let keys = get_subkeys(0x133457799BBCDFF1);
    let plain = [0x01u8, 0x23, 0x45, 0x67, 0x89, 0xAB, 0xCD, 0xEF, 0xAA];
    let enc = des_crypt_blocks(keys, &plain, true);
    assert_eq!(&enc[0..8], &[0x85, 0xE8, 0x13, 0x54, 0x0F, 0x0A, 0xB4, 0x05]);
    assert_eq!(enc.len(), 16);
    let dec = des_crypt_blocks(keys, &enc, false);
    assert_eq!(dec, vec![0x01, 0x23, 0x45, 0x67, 0x89, 0xAB, 0xCD, 0xEF, 0xAA, 0, 0, 0, 0, 0, 0, 0]);
}

#[test]
fn des_subkeys_ignore_parity_and_follow_complement() {
    let key: u64 = 0x1334_5779_9BBC_DFF1;
    let keys = get_subkeys(key);
    assert_eq!(get_subkeys(key ^ 0x0101_0101_0101_0101), keys);
    let complemented = get_subkeys(!key);
    for i in 0..16 {
        assert_eq!(keys[i] & 0xFFFF, 0);
        assert_eq!(complemented[i], keys[i] ^ 0xFFFF_FFFF_FFFF_0000);
    }
}

#[test]
fn des_complementation_property() {
    let key: u64 = 0x1334_5779_9BBC_DFF1;
    let m: u64 = 0x0123_4567_89AB_CDEF;
    assert_eq!(encrypt(!m, get_subkeys(!key)), !encrypt(m, get_subkeys(key)));
}

#[test]
fn aes_s_box_difference_table_is_at_most_four() {
    for a in 1..=255u8 {
        let mut counts = [0u32; 256];
        for x in 0..=255u8 {
            let d = substitute(x, true) ^ substitute(x ^ a, true);
            counts[d as usize] += 1;
        }
        assert!(counts.iter().all(|&c| c <= 4));
    }
}

#[test]
fn aes_s_box_linear_table_is_at_most_sixteen() {
    for a in 0..=255u8 {
        for b in 0..=255u8 {
            if a == 0 && b == 0 {
                continue;
            }
            let mut agree = 0i32;
            for x in 0..=255u8 {
                let left = (a & x).count_ones() % 2;
                let right = (b & substitute(x, true)).count_ones() % 2;
                if left == right {
                    agree += 1;
                }
            }
            assert!((agree - 128).abs() <= 16);
        }
    }
}

#[test]
fn des_s_boxes_change_two_bits_for_one_flipped_input_bit() {
    for &x in &[0u64, 0x0123_4567_89AB_CDEF, u64::MAX, 0xF0F0_1234_5678_0000] {
        for b in 16..64u64 {
            let changed = s_boxes(x) ^ s_boxes(x ^ (1u64 << b));
            assert!(get_one_bit_num(changed) > 1);
        }
    }
}

#[test]
fn des_s_boxes_middle_and_outer_patterns() {
    let rep = |q: u64| (0..8).fold(0u64, |acc, i| acc ^ (q << (16 + 6 * i)));
    for &x in &[0u64, 0x0123_4567_89AB_CDEF, u64::MAX] {
        let changed = s_boxes(x) ^ s_boxes(x ^ rep(0b001100));
        for i in 0..8 {
            assert!(get_one_bit_num((changed >> (60 - 4 * i)) & 0xF) > 1);
        }
        for &q in &[0b110100u64, 0b111000, 0b111100, 0b110000] {
            let both = s_boxes(x ^ rep(q)) | s_boxes(x);
            for j in 0..8 {
                assert!((both >> (60 - 4 * j)) & 0xF != 0);
            }
        }
    }
}

#[test]
fn des_s_boxes_balance_with_one_input_bit_fixed() {
    let rep = |v: u64| (0..8).fold(0u64, |acc, g| acc ^ (v << (16 + 6 * g)));
    let expected = [[512, 512], [503, 521], [511, 513], [521, 503], [514, 510], [512, 512]];
    for i in 0..6u64 {
        for bit in 0..2u64 {
            let n: i32 = (0..64u64)
                .filter(|v| (v >> i) & 1 == bit)
                .map(|v| get_one_bit_num(s_boxes(rep(v))) as i32)
                .sum();
            assert_eq!(n, expected[i as usize][bit as usize]);
            assert!((n - (1024 - n)).abs() < 50);
        }
    }
}
