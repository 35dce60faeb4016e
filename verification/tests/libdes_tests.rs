use crypto::libdes::{decrypt, get_subkeys, s_boxes};
use crypto::utils::get_one_bit_num;
use rand::Rng;

#[test]
fn test_nolinear() {
    let mut rng = rand::thread_rng();

    for _ in 0..1000 {
        let mut input: [u64; 3] = [0; 3];
        let mut output: [u64; 3] = [0; 3];

        for i in 0..3 {
            input[i] = rng.gen::<u64>();
        }
        for i in 0..3 {
            output[i] = s_boxes(input[i]);
        }

        let k1 = (output[1] as f64 - output[0] as f64) / (input[1] as f64 - input[0] as f64);
        let k2 = (output[2] as f64 - output[1] as f64) / (input[2] as f64 - input[1] as f64);
        let b1 = output[0] as f64 - k1 * input[0] as f64;
        let b2 = output[1] as f64 - k2 * input[1] as f64;
        assert!((k1 - k2) > 0.0001 || (k2 - k1) > 0.0001 || b1 - b2 > 0.0001 || b1 - b2 < -0.0001);
    }
}

#[test]
fn test_bit_change() {
    let mut rng = rand::thread_rng();

    for _ in 0..1000 {
        let input = rng.gen::<u64>();

        let mut input_change_bit = input;
        input_change_bit ^= 0b1 << (rng.gen::<u8>() % 48 + 16);
        let output = s_boxes(input);
        let output_change_bit = s_boxes(input_change_bit);

        let one_change = output ^ output_change_bit;
        assert!(get_one_bit_num(one_change) > 1);
    }
}

#[test]
fn test_xor_bit_change() {
    let mut rng = rand::thread_rng();

    for _ in 0..1000 {
        let input = rng.gen::<u64>();

        let mut input_change_bit = input;
        for i in 0..8 {
            input_change_bit ^= 0b001100 << (16 + (i * 6));
        }
        let output = s_boxes(input);
        let output_change_bit = s_boxes(input_change_bit);

        let one_change = output ^ output_change_bit;
        for i in 0..8 {
            let bit_change = get_one_bit_num((one_change >> (60 - (i * 4))) & 0xF);
            assert!(bit_change > 1);
        }
    }
}

#[test]
fn test_gf_bit_change() {
    let mut rng = rand::thread_rng();

    for _ in 0..1000 {
        let input = rng.gen::<u64>();
        let mut input_change_bit = [input; 4];
        let mut output_change_bit = [0; 4];

        for i in 0..8 {
            input_change_bit[0] ^= 0b110100 << (16 + (i * 6));
            input_change_bit[1] ^= 0b111000 << (16 + (i * 6));
            input_change_bit[2] ^= 0b111100 << (16 + (i * 6));
            input_change_bit[3] ^= 0b110000 << (16 + (i * 6));
        }
        let output = s_boxes(input);

        for i in 0..4 {
            output_change_bit[i] = s_boxes(input_change_bit[i]) | output;
        }
        for i in 0..4 {
            for j in 0..8 {
                let bit_change = get_one_bit_num((output_change_bit[i] >> (60 - (j * 4))) & 0xF);
                assert!(bit_change > 0);
            }
        }
    }
}

#[test]
fn test_bit_num_eq() {
    // make one bit fixed
    // and make the other bit random
    // check the zero bit and one bit num is equal
    let get_next_input_num_with_six_bit = |num: u8, fix_bit_idx: u8| -> u8 {
        let bit_mask = 0xffu8.checked_shr((9 - fix_bit_idx) as u32).unwrap_or(0);

        let next_num_value = (((num >> 1) & (0xff << (fix_bit_idx - 1))) | (num & bit_mask)) + 1;

        let low = next_num_value & bit_mask;
        let high = (next_num_value & (0xff << (fix_bit_idx - 1))) << 1;
        high | low | (num & (0b1 << fix_bit_idx - 1))
    };
    let get_input_all = |one_input: u8| -> u64 {
        let mut input_all = 0u64;
        for i in 0..8 {
            input_all ^= (one_input as u64) << (16 + (i * 6));
        }
        input_all
    };
    for i in 0..6 {
        let mut one_bit_num_with_zero = 0i32;
        let mut one_bit_num_with_one = 0i32;
        let mut input_one = (0b1 << i) as u8;
        let mut input_zero = 0u8;
        for j in 0..32 {
            let input_one_all = get_input_all(input_one);
            let input_zero_all = get_input_all(input_zero);
            let output_one = s_boxes(input_one_all);
            let output_zero = s_boxes(input_zero_all);
            one_bit_num_with_one += get_one_bit_num(output_one) as i32;
            one_bit_num_with_zero += get_one_bit_num(output_zero) as i32;
            if j != 31 {
                input_one = get_next_input_num_with_six_bit(input_one, i + 1);
                input_zero = get_next_input_num_with_six_bit(input_zero, i + 1);
            }
        }
        assert!((one_bit_num_with_one - (4 * 8 * 32 - one_bit_num_with_one)).abs() < 50);
        assert!((one_bit_num_with_zero - (4 * 8 * 32 - one_bit_num_with_zero)).abs() < 50);
    }
}

#[test]
fn test_gen_keys() {
    let key = 0b00110001_00110010_00110011_00110100_00110101_00110110_00110111_00111000;
    let keys = get_subkeys(key);
    let data = 0b10001011_10110100_01111010_00001100_11110000_10101001_01100010_01101101;
    let src_data = decrypt(data, keys);

    assert_eq!(src_data, 0b00110000_00110001_00110010_00110011_00110100_00110101_00110110_00110111);
}
