use crypto::libaes::{mix_columns, substitute, AES128};
use rand::Rng;

fn get_one_byte_num(num: u8) -> u8 {
    let mut res = 0;
    for j in 0..8 {
        if (num >> j) & 0x01 == 1 {
            res += 1;
        }
    }
    res
}

#[test]
fn test_output() {
    let mut rng = rand::thread_rng();
    let mut change_num = 0u64;

    for _ in 0..1000 {
        let key = rng.gen::<[u8; 16]>();
        let aes = AES128::new(&key);

        let mut input = rng.gen::<[u8; 16]>();
        let output = aes.encrypt_block_AES128(&input);

        let rand_change_byte = rng.gen::<u8>() % (16 * 8);

        input[rand_change_byte as usize / 8] ^= 0b1 << (rand_change_byte % 8);

        let output_change = aes.encrypt_block_AES128(&input);

        for j in 0..16 {
            let change = output[j] ^ output_change[j];
            change_num += get_one_byte_num(change) as u64;
        }
    }
    println!("output_change:{}", change_num as f64 / 1000.0);
}

#[test]
fn test_sbox_output() {
    let mut rng = rand::thread_rng();
    let mut change_num = 0u64;

    for _ in 0..1000 {
        let mut input = rng.gen::<u8>();
        let output = substitute(input.clone(), true);

        let rand_change_byte = rng.gen::<u8>() % 8;

        input ^= 0b1 << rand_change_byte;

        let output_change = substitute(input.clone(), true);

        let change = output ^ output_change;
        change_num += get_one_byte_num(change) as u64;
    }
    println!("S_box_change:{}", change_num as f64 / 1000.0);
}

#[test]
fn test_mix_column() {
    let mut rng = rand::thread_rng();
    let mut change_num = 0u64;

    for _ in 0..1000 {
        let mut input = rng.gen::<[[u8; 4]; 4]>();
        let mut input_clone = input.clone();

        let rand_change_byte = rng.gen::<u8>() % (32 * 4);

        input_clone[rand_change_byte as usize / 32][rand_change_byte as usize % 32 / 8] ^=
            0b1 << (rand_change_byte as usize % 8);

        mix_columns(&mut input);
        mix_columns(&mut input_clone);

        for i in 0..4 {
            for j in 0..4 {
                let change = input[i][j] ^ input_clone[i][j];
                change_num += get_one_byte_num(change) as u64;
            }
        }
    }
    println!("mix_column_change:{}", change_num as f64 / 1000.0);
}

#[test]
fn test_sbox_transformer() {
    let mut rng = rand::thread_rng();
    let mut trans_num = 0u64;
    for _ in 0..1000 {
        let mut tmp_trans = 0u64;
        let input = rng.gen::<u8>();
        let mut output = substitute(input.clone(), true);
        tmp_trans += 1;
        while output != input {
            output = substitute(output.clone(), true);
            tmp_trans += 1;
        }
        trans_num += tmp_trans;
    }
    println!("trans_num:{}", trans_num as f64 / 1000.0);
}

#[test]
fn differential_distribution_table() {
    let mut ddt: [[u16; 0x100]; 0x100] = [[0; 0x100]; 0x100];

    for i in 0..0x100 {
        for j in 0..0x100 {
            let output1 = substitute(i as u8, true);
            let output2 = substitute(j as u8, true);
            let dd_in = i ^ j;
            let dd_out = output1 ^ output2;
            ddt[dd_out as usize][dd_in as usize] += 1;
        }
    }
    // println!("ddt: {:?}", ddt);
}

fn poppar(x: u8) -> u8 {
    let mut res = 0;
    for i in 0..8 {
        res ^= (x >> i) & 0x01;
    }
    res
}

fn get_linear(a: u8, b: u8) -> i32 {
    let mut count = 0;
    for i in 0..0x100u16 {
        if poppar(a & i as u8) == poppar(substitute(i as u8, true) & b) {
            count += 1;
        }
    }
    count -= 128;
    count
}

#[test]
fn lineaer_table() {
    let mut lt: [[i32; 0x100]; 0x100] = [[0; 0x100]; 0x100];

    for i in 0..0x100 {
        for j in 0..0x100 {
            lt[i][j] = get_linear(i as u8, j as u8);
        }
    }
    println!("lt: {:?}", lt);
}
