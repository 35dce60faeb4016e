use vstd::prelude::*;
use crate::bitops::{lemma_mask_bounds, lemma_word_facts};
use crate::consts::SBOXES;
use crate::libdes::{s_boxes_spec, sbox_output};
use crate::utils::count_ones;

verus! {

/// DES S-box 1, entry by entry (the 6-bit input `v` indexes the table).
pub open spec fn sbox_0(v: u64) -> u64 {
    if v == 0 { 14 } else if v == 1 { 0 } else if v == 2 { 4 } else if v == 3 { 15 } else if v == 4 { 13 } else if v == 5 { 7 } else if v == 6 { 1 } else if v == 7 { 4 } else
    if v == 8 { 2 } else if v == 9 { 14 } else if v == 10 { 15 } else if v == 11 { 2 } else if v == 12 { 11 } else if v == 13 { 13 } else if v == 14 { 8 } else if v == 15 { 1 } else
    if v == 16 { 3 } else if v == 17 { 10 } else if v == 18 { 10 } else if v == 19 { 6 } else if v == 20 { 6 } else if v == 21 { 12 } else if v == 22 { 12 } else if v == 23 { 11 } else
    if v == 24 { 5 } else if v == 25 { 9 } else if v == 26 { 9 } else if v == 27 { 5 } else if v == 28 { 0 } else if v == 29 { 3 } else if v == 30 { 7 } else if v == 31 { 8 } else
    if v == 32 { 4 } else if v == 33 { 15 } else if v == 34 { 1 } else if v == 35 { 12 } else if v == 36 { 14 } else if v == 37 { 8 } else if v == 38 { 8 } else if v == 39 { 2 } else
    if v == 40 { 13 } else if v == 41 { 4 } else if v == 42 { 6 } else if v == 43 { 9 } else if v == 44 { 2 } else if v == 45 { 1 } else if v == 46 { 11 } else if v == 47 { 7 } else
    if v == 48 { 15 } else if v == 49 { 5 } else if v == 50 { 12 } else if v == 51 { 11 } else if v == 52 { 9 } else if v == 53 { 3 } else if v == 54 { 7 } else if v == 55 { 14 } else
    if v == 56 { 3 } else if v == 57 { 10 } else if v == 58 { 10 } else if v == 59 { 0 } else if v == 60 { 5 } else if v == 61 { 6 } else if v == 62 { 0 } else
    { 13 }
}

/// DES S-box 2, entry by entry (the 6-bit input `v` indexes the table).
pub open spec fn sbox_1(v: u64) -> u64 {
    if v == 0 { 15 } else if v == 1 { 3 } else if v == 2 { 1 } else if v == 3 { 13 } else if v == 4 { 8 } else if v == 5 { 4 } else if v == 6 { 14 } else if v == 7 { 7 } else
    if v == 8 { 6 } else if v == 9 { 15 } else if v == 10 { 11 } else if v == 11 { 2 } else if v == 12 { 3 } else if v == 13 { 8 } else if v == 14 { 4 } else if v == 15 { 14 } else
    if v == 16 { 9 } else if v == 17 { 12 } else if v == 18 { 7 } else if v == 19 { 0 } else if v == 20 { 2 } else if v == 21 { 1 } else if v == 22 { 13 } else if v == 23 { 10 } else
    if v == 24 { 12 } else if v == 25 { 6 } else if v == 26 { 0 } else if v == 27 { 9 } else if v == 28 { 5 } else if v == 29 { 11 } else if v == 30 { 10 } else if v == 31 { 5 } else
    if v == 32 { 0 } else if v == 33 { 13 } else if v == 34 { 14 } else if v == 35 { 8 } else if v == 36 { 7 } else if v == 37 { 10 } else if v == 38 { 11 } else if v == 39 { 1 } else
    if v == 40 { 10 } else if v == 41 { 3 } else if v == 42 { 4 } else if v == 43 { 15 } else if v == 44 { 13 } else if v == 45 { 4 } else if v == 46 { 1 } else if v == 47 { 2 } else
    if v == 48 { 5 } else if v == 49 { 11 } else if v == 50 { 8 } else if v == 51 { 6 } else if v == 52 { 12 } else if v == 53 { 7 } else if v == 54 { 6 } else if v == 55 { 12 } else
    if v == 56 { 9 } else if v == 57 { 0 } else if v == 58 { 3 } else if v == 59 { 5 } else if v == 60 { 2 } else if v == 61 { 14 } else if v == 62 { 15 } else
    { 9 }
}

/// DES S-box 3, entry by entry (the 6-bit input `v` indexes the table).
pub open spec fn sbox_2(v: u64) -> u64 {
    if v == 0 { 10 } else if v == 1 { 13 } else if v == 2 { 0 } else if v == 3 { 7 } else if v == 4 { 9 } else if v == 5 { 0 } else if v == 6 { 14 } else if v == 7 { 9 } else
    if v == 8 { 6 } else if v == 9 { 3 } else if v == 10 { 3 } else if v == 11 { 4 } else if v == 12 { 15 } else if v == 13 { 6 } else if v == 14 { 5 } else if v == 15 { 10 } else
    if v == 16 { 1 } else if v == 17 { 2 } else if v == 18 { 13 } else if v == 19 { 8 } else if v == 20 { 12 } else if v == 21 { 5 } else if v == 22 { 7 } else if v == 23 { 14 } else
    if v == 24 { 11 } else if v == 25 { 12 } else if v == 26 { 4 } else if v == 27 { 11 } else if v == 28 { 2 } else if v == 29 { 15 } else if v == 30 { 8 } else if v == 31 { 1 } else
    if v == 32 { 13 } else if v == 33 { 1 } else if v == 34 { 6 } else if v == 35 { 10 } else if v == 36 { 4 } else if v == 37 { 13 } else if v == 38 { 9 } else if v == 39 { 0 } else
    if v == 40 { 8 } else if v == 41 { 6 } else if v == 42 { 15 } else if v == 43 { 9 } else if v == 44 { 3 } else if v == 45 { 8 } else if v == 46 { 0 } else if v == 47 { 7 } else
    if v == 48 { 11 } else if v == 49 { 4 } else if v == 50 { 1 } else if v == 51 { 15 } else if v == 52 { 2 } else if v == 53 { 14 } else if v == 54 { 12 } else if v == 55 { 3 } else
    if v == 56 { 5 } else if v == 57 { 11 } else if v == 58 { 10 } else if v == 59 { 5 } else if v == 60 { 14 } else if v == 61 { 2 } else if v == 62 { 7 } else
    { 12 }
}

/// DES S-box 4, entry by entry (the 6-bit input `v` indexes the table).
pub open spec fn sbox_3(v: u64) -> u64 {
    if v == 0 { 7 } else if v == 1 { 13 } else if v == 2 { 13 } else if v == 3 { 8 } else if v == 4 { 14 } else if v == 5 { 11 } else if v == 6 { 3 } else if v == 7 { 5 } else
    if v == 8 { 0 } else if v == 9 { 6 } else if v == 10 { 6 } else if v == 11 { 15 } else if v == 12 { 9 } else if v == 13 { 0 } else if v == 14 { 10 } else if v == 15 { 3 } else
    if v == 16 { 1 } else if v == 17 { 4 } else if v == 18 { 2 } else if v == 19 { 7 } else if v == 20 { 8 } else if v == 21 { 2 } else if v == 22 { 5 } else if v == 23 { 12 } else
    if v == 24 { 11 } else if v == 25 { 1 } else if v == 26 { 12 } else if v == 27 { 10 } else if v == 28 { 4 } else if v == 29 { 14 } else if v == 30 { 15 } else if v == 31 { 9 } else
    if v == 32 { 10 } else if v == 33 { 3 } else if v == 34 { 6 } else if v == 35 { 15 } else if v == 36 { 9 } else if v == 37 { 0 } else if v == 38 { 0 } else if v == 39 { 6 } else
    if v == 40 { 12 } else if v == 41 { 10 } else if v == 42 { 11 } else if v == 43 { 1 } else if v == 44 { 7 } else if v == 45 { 13 } else if v == 46 { 13 } else if v == 47 { 8 } else
    if v == 48 { 15 } else if v == 49 { 9 } else if v == 50 { 1 } else if v == 51 { 4 } else if v == 52 { 3 } else if v == 53 { 5 } else if v == 54 { 14 } else if v == 55 { 11 } else
    if v == 56 { 5 } else if v == 57 { 12 } else if v == 58 { 2 } else if v == 59 { 7 } else if v == 60 { 8 } else if v == 61 { 2 } else if v == 62 { 4 } else
    { 14 }
}

/// DES S-box 5, entry by entry (the 6-bit input `v` indexes the table).
pub open spec fn sbox_4(v: u64) -> u64 {
    if v == 0 { 2 } else if v == 1 { 14 } else if v == 2 { 12 } else if v == 3 { 11 } else if v == 4 { 4 } else if v == 5 { 2 } else if v == 6 { 1 } else if v == 7 { 12 } else
    if v == 8 { 7 } else if v == 9 { 4 } else if v == 10 { 10 } else if v == 11 { 7 } else if v == 12 { 11 } else if v == 13 { 13 } else if v == 14 { 6 } else if v == 15 { 1 } else
    if v == 16 { 8 } else if v == 17 { 5 } else if v == 18 { 5 } else if v == 19 { 0 } else if v == 20 { 3 } else if v == 21 { 15 } else if v == 22 { 15 } else if v == 23 { 10 } else
    if v == 24 { 13 } else if v == 25 { 3 } else if v == 26 { 0 } else if v == 27 { 9 } else if v == 28 { 14 } else if v == 29 { 8 } else if v == 30 { 9 } else if v == 31 { 6 } else
    if v == 32 { 4 } else if v == 33 { 11 } else if v == 34 { 2 } else if v == 35 { 8 } else if v == 36 { 1 } else if v == 37 { 12 } else if v == 38 { 11 } else if v == 39 { 7 } else
    if v == 40 { 10 } else if v == 41 { 1 } else if v == 42 { 13 } else if v == 43 { 14 } else if v == 44 { 7 } else if v == 45 { 2 } else if v == 46 { 8 } else if v == 47 { 13 } else
    if v == 48 { 15 } else if v == 49 { 6 } else if v == 50 { 9 } else if v == 51 { 15 } else if v == 52 { 12 } else if v == 53 { 0 } else if v == 54 { 5 } else if v == 55 { 9 } else
    if v == 56 { 6 } else if v == 57 { 10 } else if v == 58 { 3 } else if v == 59 { 4 } else if v == 60 { 0 } else if v == 61 { 5 } else if v == 62 { 14 } else
    { 3 }
}

/// DES S-box 6, entry by entry (the 6-bit input `v` indexes the table).
pub open spec fn sbox_5(v: u64) -> u64 {
    if v == 0 { 12 } else if v == 1 { 10 } else if v == 2 { 1 } else if v == 3 { 15 } else if v == 4 { 10 } else if v == 5 { 4 } else if v == 6 { 15 } else if v == 7 { 2 } else
    if v == 8 { 9 } else if v == 9 { 7 } else if v == 10 { 2 } else if v == 11 { 12 } else if v == 12 { 6 } else if v == 13 { 9 } else if v == 14 { 8 } else if v == 15 { 5 } else
    if v == 16 { 0 } else if v == 17 { 6 } else if v == 18 { 13 } else if v == 19 { 1 } else if v == 20 { 3 } else if v == 21 { 13 } else if v == 22 { 4 } else if v == 23 { 14 } else
    if v == 24 { 14 } else if v == 25 { 0 } else if v == 26 { 7 } else if v == 27 { 11 } else if v == 28 { 5 } else if v == 29 { 3 } else if v == 30 { 11 } else if v == 31 { 8 } else
    if v == 32 { 9 } else if v == 33 { 4 } else if v == 34 { 14 } else if v == 35 { 3 } else if v == 36 { 15 } else if v == 37 { 2 } else if v == 38 { 5 } else if v == 39 { 12 } else
    if v == 40 { 2 } else if v == 41 { 9 } else if v == 42 { 8 } else if v == 43 { 5 } else if v == 44 { 12 } else if v == 45 { 15 } else if v == 46 { 3 } else if v == 47 { 10 } else
    if v == 48 { 7 } else if v == 49 { 11 } else if v == 50 { 0 } else if v == 51 { 14 } else if v == 52 { 4 } else if v == 53 { 1 } else if v == 54 { 10 } else if v == 55 { 7 } else
    if v == 56 { 1 } else if v == 57 { 6 } else if v == 58 { 13 } else if v == 59 { 0 } else if v == 60 { 11 } else if v == 61 { 8 } else if v == 62 { 6 } else
    { 13 }
}

/// DES S-box 7, entry by entry (the 6-bit input `v` indexes the table).
pub open spec fn sbox_6(v: u64) -> u64 {
    if v == 0 { 4 } else if v == 1 { 13 } else if v == 2 { 11 } else if v == 3 { 0 } else if v == 4 { 2 } else if v == 5 { 11 } else if v == 6 { 14 } else if v == 7 { 7 } else
    if v == 8 { 15 } else if v == 9 { 4 } else if v == 10 { 0 } else if v == 11 { 9 } else if v == 12 { 8 } else if v == 13 { 1 } else if v == 14 { 13 } else if v == 15 { 10 } else
    if v == 16 { 3 } else if v == 17 { 14 } else if v == 18 { 12 } else if v == 19 { 3 } else if v == 20 { 9 } else if v == 21 { 5 } else if v == 22 { 7 } else if v == 23 { 12 } else
    if v == 24 { 5 } else if v == 25 { 2 } else if v == 26 { 10 } else if v == 27 { 15 } else if v == 28 { 6 } else if v == 29 { 8 } else if v == 30 { 1 } else if v == 31 { 6 } else
    if v == 32 { 1 } else if v == 33 { 6 } else if v == 34 { 4 } else if v == 35 { 11 } else if v == 36 { 11 } else if v == 37 { 13 } else if v == 38 { 13 } else if v == 39 { 8 } else
    if v == 40 { 12 } else if v == 41 { 1 } else if v == 42 { 3 } else if v == 43 { 4 } else if v == 44 { 7 } else if v == 45 { 10 } else if v == 46 { 14 } else if v == 47 { 7 } else
    if v == 48 { 10 } else if v == 49 { 9 } else if v == 50 { 15 } else if v == 51 { 5 } else if v == 52 { 6 } else if v == 53 { 0 } else if v == 54 { 8 } else if v == 55 { 15 } else
    if v == 56 { 0 } else if v == 57 { 14 } else if v == 58 { 5 } else if v == 59 { 2 } else if v == 60 { 9 } else if v == 61 { 3 } else if v == 62 { 2 } else
    { 12 }
}

/// DES S-box 8, entry by entry (the 6-bit input `v` indexes the table).
pub open spec fn sbox_7(v: u64) -> u64 {
    if v == 0 { 13 } else if v == 1 { 1 } else if v == 2 { 2 } else if v == 3 { 15 } else if v == 4 { 8 } else if v == 5 { 13 } else if v == 6 { 4 } else if v == 7 { 8 } else
    if v == 8 { 6 } else if v == 9 { 10 } else if v == 10 { 15 } else if v == 11 { 3 } else if v == 12 { 11 } else if v == 13 { 7 } else if v == 14 { 1 } else if v == 15 { 4 } else
    if v == 16 { 10 } else if v == 17 { 12 } else if v == 18 { 9 } else if v == 19 { 5 } else if v == 20 { 3 } else if v == 21 { 6 } else if v == 22 { 14 } else if v == 23 { 11 } else
    if v == 24 { 5 } else if v == 25 { 0 } else if v == 26 { 0 } else if v == 27 { 14 } else if v == 28 { 12 } else if v == 29 { 9 } else if v == 30 { 7 } else if v == 31 { 2 } else
    if v == 32 { 7 } else if v == 33 { 2 } else if v == 34 { 11 } else if v == 35 { 1 } else if v == 36 { 4 } else if v == 37 { 14 } else if v == 38 { 1 } else if v == 39 { 7 } else
    if v == 40 { 9 } else if v == 41 { 4 } else if v == 42 { 12 } else if v == 43 { 10 } else if v == 44 { 14 } else if v == 45 { 8 } else if v == 46 { 2 } else if v == 47 { 13 } else
    if v == 48 { 0 } else if v == 49 { 15 } else if v == 50 { 6 } else if v == 51 { 12 } else if v == 52 { 10 } else if v == 53 { 9 } else if v == 54 { 13 } else if v == 55 { 0 } else
    if v == 56 { 15 } else if v == 57 { 3 } else if v == 58 { 3 } else if v == 59 { 5 } else if v == 60 { 5 } else if v == 61 { 6 } else if v == 62 { 8 } else
    { 11 }
}

/// Entry `v` of DES S-box `k + 1`.
pub open spec fn sbox_entry(k: u64, v: u64) -> u64 {
    if k == 0 {
        sbox_0(v)
    } else if k == 1 {
        sbox_1(v)
    } else if k == 2 {
        sbox_2(v)
    } else if k == 3 {
        sbox_3(v)
    } else if k == 4 {
        sbox_4(v)
    } else if k == 5 {
        sbox_5(v)
    } else if k == 6 {
        sbox_6(v)
    } else {
        sbox_7(v)
    }
}

/// The number of output bits that are 1 over the eight S-boxes, all given the input `v`.
pub open spec fn row_weight(v: u64) -> int {
    if v == 0 { 19 } else if v == 1 { 17 } else if v == 2 { 12 } else if v == 3 { 22 } else if v == 4 { 14 } else if v == 5 { 15 } else if v == 6 { 18 } else if v == 7 { 15 } else
    if v == 8 { 16 } else if v == 9 { 18 } else if v == 10 { 18 } else if v == 11 { 16 } else if v == 12 { 20 } else if v == 13 { 15 } else if v == 14 { 13 } else if v == 15 { 14 } else
    if v == 16 { 11 } else if v == 17 { 15 } else if v == 18 { 18 } else if v == 19 { 11 } else if v == 20 { 14 } else if v == 21 { 17 } else if v == 22 { 21 } else if v == 23 { 20 } else
    if v == 24 { 20 } else if v == 25 { 10 } else if v == 26 { 10 } else if v == 27 { 21 } else if v == 28 { 13 } else if v == 29 { 18 } else if v == 30 { 19 } else if v == 31 { 12 } else
    if v == 32 { 13 } else if v == 33 { 17 } else if v == 34 { 16 } else if v == 35 { 16 } else if v == 36 { 18 } else if v == 37 { 15 } else if v == 38 { 15 } else if v == 39 { 13 } else
    if v == 40 { 15 } else if v == 41 { 12 } else if v == 42 { 18 } else if v == 43 { 17 } else if v == 44 { 20 } else if v == 45 { 14 } else if v == 46 { 14 } else if v == 47 { 19 } else
    if v == 48 { 22 } else if v == 49 { 19 } else if v == 50 { 13 } else if v == 51 { 21 } else if v == 52 { 14 } else if v == 53 { 13 } else if v == 54 { 18 } else if v == 55 { 19 } else
    if v == 56 { 15 } else if v == 57 { 16 } else if v == 58 { 16 } else if v == 59 { 11 } else if v == 60 { 14 } else if v == 61 { 14 } else if v == 62 { 15 } else
    { 20 }
}

/// The number of bits that are 1 among the four low bits of `w`.
pub open spec fn nibble_weight(w: u64) -> int {
    ((w & 1) + ((w >> 1u64) & 1) + ((w >> 2u64) & 1) + ((w >> 3u64) & 1)) as int
}

/// The table of S-box 1 is the chain `sbox_0`.
#[verifier::rlimit(100)]
proof fn lemma_sbox_table_0()
    ensures
        forall|v: u64| v < 64 ==> #[trigger] SBOXES[0][v as int] as u64 == sbox_0(v),
{
    assert(forall|v: int| 0 <= v < 64 ==> SBOXES[0][v] as u64 == #[trigger] sbox_0(v as u64));
}

/// The table of S-box 2 is the chain `sbox_1`.
#[verifier::rlimit(100)]
proof fn lemma_sbox_table_1()
    ensures
        forall|v: u64| v < 64 ==> #[trigger] SBOXES[1][v as int] as u64 == sbox_1(v),
{
    assert(forall|v: int| 0 <= v < 64 ==> SBOXES[1][v] as u64 == #[trigger] sbox_1(v as u64));
}

/// The table of S-box 3 is the chain `sbox_2`.
#[verifier::rlimit(100)]
proof fn lemma_sbox_table_2()
    ensures
        forall|v: u64| v < 64 ==> #[trigger] SBOXES[2][v as int] as u64 == sbox_2(v),
{
    assert(forall|v: int| 0 <= v < 64 ==> SBOXES[2][v] as u64 == #[trigger] sbox_2(v as u64));
}

/// The table of S-box 4 is the chain `sbox_3`.
#[verifier::rlimit(100)]
proof fn lemma_sbox_table_3()
    ensures
        forall|v: u64| v < 64 ==> #[trigger] SBOXES[3][v as int] as u64 == sbox_3(v),
{
    assert(forall|v: int| 0 <= v < 64 ==> SBOXES[3][v] as u64 == #[trigger] sbox_3(v as u64));
}

/// The table of S-box 5 is the chain `sbox_4`.
#[verifier::rlimit(100)]
proof fn lemma_sbox_table_4()
    ensures
        forall|v: u64| v < 64 ==> #[trigger] SBOXES[4][v as int] as u64 == sbox_4(v),
{
    assert(forall|v: int| 0 <= v < 64 ==> SBOXES[4][v] as u64 == #[trigger] sbox_4(v as u64));
}

/// The table of S-box 6 is the chain `sbox_5`.
#[verifier::rlimit(100)]
proof fn lemma_sbox_table_5()
    ensures
        forall|v: u64| v < 64 ==> #[trigger] SBOXES[5][v as int] as u64 == sbox_5(v),
{
    assert(forall|v: int| 0 <= v < 64 ==> SBOXES[5][v] as u64 == #[trigger] sbox_5(v as u64));
}

/// The table of S-box 7 is the chain `sbox_6`.
#[verifier::rlimit(100)]
proof fn lemma_sbox_table_6()
    ensures
        forall|v: u64| v < 64 ==> #[trigger] SBOXES[6][v as int] as u64 == sbox_6(v),
{
    assert(forall|v: int| 0 <= v < 64 ==> SBOXES[6][v] as u64 == #[trigger] sbox_6(v as u64));
}

/// The table of S-box 8 is the chain `sbox_7`.
#[verifier::rlimit(100)]
proof fn lemma_sbox_table_7()
    ensures
        forall|v: u64| v < 64 ==> #[trigger] SBOXES[7][v as int] as u64 == sbox_7(v),
{
    assert(forall|v: int| 0 <= v < 64 ==> SBOXES[7][v] as u64 == #[trigger] sbox_7(v as u64));
}

/// Every S-box table entry is the chain entry.
proof fn lemma_sbox_tables()
    ensures
        forall|k: u64, v: u64| k < 8 && v < 64 ==> #[trigger] SBOXES[k as int][v as int] as u64 == sbox_entry(k, v),
{
    lemma_sbox_table_0();
    lemma_sbox_table_1();
    lemma_sbox_table_2();
    lemma_sbox_table_3();
    lemma_sbox_table_4();
    lemma_sbox_table_5();
    lemma_sbox_table_6();
    lemma_sbox_table_7();
}

/// The design properties of the S-boxes, input by input: outputs have four bits; changing
/// one input bit, or the two middle bits, changes at least two output bits; the four
/// patterns that change the outer bits never make both outputs 0; and the output weights
/// over the eight S-boxes.
#[verifier::rlimit(100)]
proof fn lemma_sbox_design()
    by (bit_vector)
    ensures
        forall|k: u64, v: u64| k < 8 && v < 64 ==> #[trigger] sbox_entry(k, v) < 16,
        forall|k: u64, v: u64, j: u64| k < 8 && v < 64 && j < 6 ==> #[trigger] nibble_weight(sbox_entry(k, v) ^ sbox_entry(k, v ^ (1u64 << j))) >= 2,
        forall|k: u64, v: u64| k < 8 && v < 64 ==> #[trigger] nibble_weight(sbox_entry(k, v) ^ sbox_entry(k, v ^ 0b001100u64)) >= 2,
        forall|k: u64, v: u64, q: u64| k < 8 && v < 64 && (q == 0b110100u64 || q == 0b111000u64 || q == 0b111100u64 || q == 0b110000u64) ==> #[trigger] (sbox_entry(k, v ^ q) | sbox_entry(k, v)) != 0,
        forall|v: u64| v < 64 ==> #[trigger] row_weight(v) == nibble_weight(sbox_entry(0, v)) + nibble_weight(sbox_entry(1, v)) + nibble_weight(sbox_entry(2, v)) + nibble_weight(sbox_entry(3, v)) + nibble_weight(sbox_entry(4, v)) + nibble_weight(sbox_entry(5, v)) + nibble_weight(sbox_entry(6, v)) + nibble_weight(sbox_entry(7, v)),
{
}

/// Eight 4-bit values in the eight top nibbles of a word, the first at the top.
pub open spec fn pack(o0: u64, o1: u64, o2: u64, o3: u64, o4: u64, o5: u64, o6: u64, o7: u64) -> u64 {
    (((((((0u64 | (o0 << 60u64)) | (o1 << 56u64)) | (o2 << 52u64)) | (o3 << 48u64)) | (o4 << 44u64)) | (o5
        << 40u64)) | (o6 << 36u64)) | (o7 << 32u64)
}

/// Output slot `k` (from 0) of the S-boxes in a word: the nibble at bit `60 - 4 * k`.
pub open spec fn slot(z: u64, k: int) -> u64 {
    (z >> ((60 - 4 * k) as u64)) & 0xF
}

/// The sum of the nibble weights of the `m` low nibbles of `z`.
pub open spec fn nibble_sum(z: u64, m: nat) -> int
    decreases m,
{
    if m == 0 {
        0
    } else {
        nibble_sum(z, (m - 1) as nat) + nibble_weight((z >> ((4 * (m - 1)) as u64)) & 0xF)
    }
}

/// What XOR and OR do to packed nibbles, where the nibbles are, and that the four low
/// bytes of a packed word are 0.
proof fn lemma_pack(o0: u64, o1: u64, o2: u64, o3: u64, o4: u64, o5: u64, o6: u64, o7: u64, p0: u64, p1: u64, p2: u64, p3: u64, p4: u64, p5: u64, p6: u64, p7: u64)
    by (bit_vector)
    requires
        o0 < 16 && o1 < 16 && o2 < 16 && o3 < 16 && o4 < 16 && o5 < 16 && o6 < 16 && o7 < 16,
        p0 < 16 && p1 < 16 && p2 < 16 && p3 < 16 && p4 < 16 && p5 < 16 && p6 < 16 && p7 < 16,
    ensures
        pack(o0, o1, o2, o3, o4, o5, o6, o7) ^ pack(p0, p1, p2, p3, p4, p5, p6, p7) == pack(o0 ^ p0, o1 ^ p1, o2 ^ p2, o3 ^ p3, o4 ^ p4, o5 ^ p5, o6 ^ p6, o7 ^ p7),
        pack(o0, o1, o2, o3, o4, o5, o6, o7) | pack(p0, p1, p2, p3, p4, p5, p6, p7) == pack(o0 | p0, o1 | p1, o2 | p2, o3 | p3, o4 | p4, o5 | p5, o6 | p6, o7 | p7),
        (pack(o0, o1, o2, o3, o4, o5, o6, o7) >> 60u64) & 0xF == o0,
        (pack(o0, o1, o2, o3, o4, o5, o6, o7) >> 56u64) & 0xF == o1,
        (pack(o0, o1, o2, o3, o4, o5, o6, o7) >> 52u64) & 0xF == o2,
        (pack(o0, o1, o2, o3, o4, o5, o6, o7) >> 48u64) & 0xF == o3,
        (pack(o0, o1, o2, o3, o4, o5, o6, o7) >> 44u64) & 0xF == o4,
        (pack(o0, o1, o2, o3, o4, o5, o6, o7) >> 40u64) & 0xF == o5,
        (pack(o0, o1, o2, o3, o4, o5, o6, o7) >> 36u64) & 0xF == o6,
        (pack(o0, o1, o2, o3, o4, o5, o6, o7) >> 32u64) & 0xF == o7,
        (pack(o0, o1, o2, o3, o4, o5, o6, o7) >> 28u64) & 0xF == 0,
        (pack(o0, o1, o2, o3, o4, o5, o6, o7) >> 24u64) & 0xF == 0,
        (pack(o0, o1, o2, o3, o4, o5, o6, o7) >> 20u64) & 0xF == 0,
        (pack(o0, o1, o2, o3, o4, o5, o6, o7) >> 16u64) & 0xF == 0,
        (pack(o0, o1, o2, o3, o4, o5, o6, o7) >> 12u64) & 0xF == 0,
        (pack(o0, o1, o2, o3, o4, o5, o6, o7) >> 8u64) & 0xF == 0,
        (pack(o0, o1, o2, o3, o4, o5, o6, o7) >> 4u64) & 0xF == 0,
        (pack(o0, o1, o2, o3, o4, o5, o6, o7) >> 0u64) & 0xF == 0,
        o0 ^ p0 < 16 && o1 ^ p1 < 16 && o2 ^ p2 < 16 && o3 ^ p3 < 16 && o4 ^ p4 < 16 && o5 ^ p5 < 16 && o6 ^ p6 < 16 && o7 ^ p7 < 16,
        o0 | p0 < 16 && o1 | p1 < 16 && o2 | p2 < 16 && o3 | p3 < 16 && o4 | p4 < 16 && o5 | p5 < 16 && o6 | p6 < 16 && o7 | p7 < 16,
        o0 ^ o0 == 0,
        nibble_weight(0) == 0,
{
}

/// Four consecutive bits of `z` make up the weight of the nibble they form.
proof fn lemma_nibble_bits(z: u64, s: u64, s1: u64, s2: u64, s3: u64)
    by (bit_vector)
    requires
        s < 61,
        s1 == s + 1,
        s2 == s + 2,
        s3 == s + 3,
    ensures
        ((z >> s) & 1) + ((z >> s1) & 1) + ((z >> s2) & 1) + ((z >> s3) & 1) == nibble_weight((z >> s) & 0xF),
        (z >> s) & 1 <= 1,
        (z >> s1) & 1 <= 1,
        (z >> s2) & 1 <= 1,
        (z >> s3) & 1 <= 1,
{
}

/// The number of 1 bits among the `4 * m` low bits is the sum of the nibble weights.
proof fn lemma_count_nibbles(z: u64, m: nat)
    requires
        m <= 16,
    ensures
        count_ones(z, 4 * m) == nibble_sum(z, m),
    decreases m,
{
    if m > 0 {
        lemma_count_nibbles(z, (m - 1) as nat);
        let s = 4 * (m - 1);
        lemma_nibble_bits(z, s as u64, (s + 1) as u64, (s + 2) as u64, (s + 3) as u64);
        assert(count_ones(z, (s + 1) as nat) == count_ones(z, s as nat) + ((z >> (s as u64)) & 1));
        assert(count_ones(z, (s + 2) as nat) == count_ones(z, (s + 1) as nat) + ((z >> ((s + 1) as u64)) & 1));
        assert(count_ones(z, (s + 3) as nat) == count_ones(z, (s + 2) as nat) + ((z >> ((s + 2) as u64)) & 1));
        assert(count_ones(z, (s + 4) as nat) == count_ones(z, (s + 3) as nat) + ((z >> ((s + 3) as u64)) & 1));
    }
}

/// The number of 1 bits of a packed word is the sum of the weights of its nibbles.
proof fn lemma_pack_count(o0: u64, o1: u64, o2: u64, o3: u64, o4: u64, o5: u64, o6: u64, o7: u64)
    requires
        o0 < 16 && o1 < 16 && o2 < 16 && o3 < 16 && o4 < 16 && o5 < 16 && o6 < 16 && o7 < 16,
    ensures
        count_ones(pack(o0, o1, o2, o3, o4, o5, o6, o7), 64) == nibble_weight(o0) + nibble_weight(o1) + nibble_weight(o2) + nibble_weight(o3) + nibble_weight(o4) + nibble_weight(o5) + nibble_weight(o6) + nibble_weight(o7),
{
    let z = pack(o0, o1, o2, o3, o4, o5, o6, o7);
    lemma_pack(o0, o1, o2, o3, o4, o5, o6, o7, 0, 0, 0, 0, 0, 0, 0, 0);
    lemma_count_nibbles(z, 16);
    reveal_with_fuel(nibble_sum, 17);
}

/// The input of S-box `k` in `x`, its output, and the table entry agree.
proof fn lemma_sbox_output(x: u64, k: int)
    requires
        0 <= k < 8,
    ensures
        ((x >> ((58 - 6 * k) as u64)) & 0x3F) < 64,
        sbox_output(x, k) == sbox_entry(k as u64, (x >> ((58 - 6 * k) as u64)) & 0x3F),
        sbox_output(x, k) < 16,
{
    lemma_sbox_tables();
    lemma_sbox_design();
    lemma_mask_bounds(x >> ((58 - 6 * k) as u64), 0);
    let v = (x >> ((58 - 6 * k) as u64)) & 0x3F;
    assert(SBOXES[k as u64 as int][v as int] as u64 == sbox_entry(k as u64, v));
    assert(sbox_entry(k as u64, v) < 16);
}

/// The S-box outputs of `x`, packed.
proof fn lemma_s_boxes_pack(x: u64)
    ensures
        s_boxes_spec(x, 8) == pack(sbox_output(x, 0), sbox_output(x, 1), sbox_output(x, 2), sbox_output(x, 3), sbox_output(x, 4), sbox_output(x, 5), sbox_output(x, 6), sbox_output(x, 7)),
        sbox_output(x, 0) < 16 && sbox_output(x, 1) < 16 && sbox_output(x, 2) < 16 && sbox_output(x, 3) < 16,
        sbox_output(x, 4) < 16 && sbox_output(x, 5) < 16 && sbox_output(x, 6) < 16 && sbox_output(x, 7) < 16,
{
    reveal_with_fuel(s_boxes_spec, 9);
    lemma_sbox_output(x, 0);
    lemma_sbox_output(x, 1);
    lemma_sbox_output(x, 2);
    lemma_sbox_output(x, 3);
    lemma_sbox_output(x, 4);
    lemma_sbox_output(x, 5);
    lemma_sbox_output(x, 6);
    lemma_sbox_output(x, 7);
}


/// The six-bit value `q` given to every S-box: the XOR over `i < 8` of `q << (16 + 6 * i)`.
pub open spec fn rep6(q: u64) -> u64 {
    ((((((((0u64 ^ (q << 16u64)) ^ (q << 22u64)) ^ (q << 28u64)) ^ (q << 34u64)) ^ (q << 40u64)) ^ (q
        << 46u64)) ^ (q << 52u64)) ^ (q << 58u64))
}

/// Flipping bit `b` of a word flips bit `b - s` of the six bits read from `s` when `b`
/// is among them, and leaves them alone otherwise.
proof fn lemma_flip_input(x: u64, b: u64, s: u64, j: u64)
    by (bit_vector)
    requires
        b < 64,
        s <= 58,
    ensures
        (b < s || b >= s + 6) ==> ((x ^ (1u64 << b)) >> s) & 0x3F == (x >> s) & 0x3F,
        (j < 6 && j + s == b) ==> ((x ^ (1u64 << b)) >> s) & 0x3F == ((x >> s) & 0x3F) ^ (1u64 << j),
{
}

/// XOR-ing `rep6(q)` into a word XORs `q` into the input of every S-box, and `rep6(q)`
/// itself gives `q` to every S-box.
proof fn lemma_rep6(x: u64, q: u64, s: u64)
    by (bit_vector)
    requires
        q < 64,
        16 <= s <= 58,
        s % 6 == 4,
    ensures
        ((x ^ rep6(q)) >> s) & 0x3F == ((x >> s) & 0x3F) ^ q,
        (rep6(q) >> s) & 0x3F == q,
{
}

/// A nibble, as a word: its own low nibble, and 0 above.
proof fn lemma_small_nibble(n: u64)
    by (bit_vector)
    requires
        n < 16,
    ensures
        (n >> 0u64) & 0xF == n,
        (n >> 4u64) & 0xF == 0,
        (n >> 8u64) & 0xF == 0,
        (n >> 12u64) & 0xF == 0,
        (n >> 16u64) & 0xF == 0,
        (n >> 20u64) & 0xF == 0,
        (n >> 24u64) & 0xF == 0,
        (n >> 28u64) & 0xF == 0,
        (n >> 32u64) & 0xF == 0,
        (n >> 36u64) & 0xF == 0,
        (n >> 40u64) & 0xF == 0,
        (n >> 44u64) & 0xF == 0,
        (n >> 48u64) & 0xF == 0,
        (n >> 52u64) & 0xF == 0,
        (n >> 56u64) & 0xF == 0,
        (n >> 60u64) & 0xF == 0,
{
}

/// The number of 1 bits of a nibble is its weight.
proof fn lemma_small_count(n: u64)
    requires
        n < 16,
    ensures
        count_ones(n, 64) == nibble_weight(n),
{
    lemma_small_nibble(n);
    lemma_count_nibbles(n, 16);
    lemma_pack(0, 0, 0, 0, 0, 0, 0, 0, 0, 0, 0, 0, 0, 0, 0, 0);
    reveal_with_fuel(nibble_sum, 17);
}

/// Flipping one of the 48 input bits of the S-boxes changes at least two output bits.
pub proof fn lemma_s_boxes_bit_flip(x: u64, b: u64)
    requires
        16 <= b < 64,
    ensures
        count_ones(s_boxes_spec(x, 8) ^ s_boxes_spec(x ^ (1u64 << b), 8), 64) > 1,
{
    lemma_sbox_design();
    let y = x ^ (1u64 << b);
    let k0: int = (63 - b) / 6;
    let j = (b - (58 - 6 * k0)) as u64;
    assert(0 <= k0 < 8 && j < 6 && j + (58 - 6 * k0) == b);
    lemma_s_boxes_pack(x);
    lemma_s_boxes_pack(y);
    lemma_sbox_output(x, 0);
    lemma_sbox_output(y, 0);
    lemma_flip_input(x, b, 58u64, j);
    lemma_word_facts(sbox_output(x, 0), 0, 0);
    if k0 == 0 {
        assert(nibble_weight(sbox_entry(0u64, (x >> 58u64) & 0x3F) ^ sbox_entry(0u64, ((x >> 58u64) & 0x3F) ^ (1u64 << j))) >= 2);
    }
    lemma_sbox_output(x, 1);
    lemma_sbox_output(y, 1);
    lemma_flip_input(x, b, 52u64, j);
    lemma_word_facts(sbox_output(x, 1), 0, 0);
    if k0 == 1 {
        assert(nibble_weight(sbox_entry(1u64, (x >> 52u64) & 0x3F) ^ sbox_entry(1u64, ((x >> 52u64) & 0x3F) ^ (1u64 << j))) >= 2);
    }
    lemma_sbox_output(x, 2);
    lemma_sbox_output(y, 2);
    lemma_flip_input(x, b, 46u64, j);
    lemma_word_facts(sbox_output(x, 2), 0, 0);
    if k0 == 2 {
        assert(nibble_weight(sbox_entry(2u64, (x >> 46u64) & 0x3F) ^ sbox_entry(2u64, ((x >> 46u64) & 0x3F) ^ (1u64 << j))) >= 2);
    }
    lemma_sbox_output(x, 3);
    lemma_sbox_output(y, 3);
    lemma_flip_input(x, b, 40u64, j);
    lemma_word_facts(sbox_output(x, 3), 0, 0);
    if k0 == 3 {
        assert(nibble_weight(sbox_entry(3u64, (x >> 40u64) & 0x3F) ^ sbox_entry(3u64, ((x >> 40u64) & 0x3F) ^ (1u64 << j))) >= 2);
    }
    lemma_sbox_output(x, 4);
    lemma_sbox_output(y, 4);
    lemma_flip_input(x, b, 34u64, j);
    lemma_word_facts(sbox_output(x, 4), 0, 0);
    if k0 == 4 {
        assert(nibble_weight(sbox_entry(4u64, (x >> 34u64) & 0x3F) ^ sbox_entry(4u64, ((x >> 34u64) & 0x3F) ^ (1u64 << j))) >= 2);
    }
    lemma_sbox_output(x, 5);
    lemma_sbox_output(y, 5);
    lemma_flip_input(x, b, 28u64, j);
    lemma_word_facts(sbox_output(x, 5), 0, 0);
    if k0 == 5 {
        assert(nibble_weight(sbox_entry(5u64, (x >> 28u64) & 0x3F) ^ sbox_entry(5u64, ((x >> 28u64) & 0x3F) ^ (1u64 << j))) >= 2);
    }
    lemma_sbox_output(x, 6);
    lemma_sbox_output(y, 6);
    lemma_flip_input(x, b, 22u64, j);
    lemma_word_facts(sbox_output(x, 6), 0, 0);
    if k0 == 6 {
        assert(nibble_weight(sbox_entry(6u64, (x >> 22u64) & 0x3F) ^ sbox_entry(6u64, ((x >> 22u64) & 0x3F) ^ (1u64 << j))) >= 2);
    }
    lemma_sbox_output(x, 7);
    lemma_sbox_output(y, 7);
    lemma_flip_input(x, b, 16u64, j);
    lemma_word_facts(sbox_output(x, 7), 0, 0);
    if k0 == 7 {
        assert(nibble_weight(sbox_entry(7u64, (x >> 16u64) & 0x3F) ^ sbox_entry(7u64, ((x >> 16u64) & 0x3F) ^ (1u64 << j))) >= 2);
    }
    lemma_pack(
        sbox_output(x, 0), sbox_output(x, 1), sbox_output(x, 2), sbox_output(x, 3),
        sbox_output(x, 4), sbox_output(x, 5), sbox_output(x, 6), sbox_output(x, 7),
        sbox_output(y, 0), sbox_output(y, 1), sbox_output(y, 2), sbox_output(y, 3),
        sbox_output(y, 4), sbox_output(y, 5), sbox_output(y, 6), sbox_output(y, 7),
    );
    lemma_pack_count(
        sbox_output(x, 0) ^ sbox_output(y, 0), sbox_output(x, 1) ^ sbox_output(y, 1),
        sbox_output(x, 2) ^ sbox_output(y, 2), sbox_output(x, 3) ^ sbox_output(y, 3),
        sbox_output(x, 4) ^ sbox_output(y, 4), sbox_output(x, 5) ^ sbox_output(y, 5),
        sbox_output(x, 6) ^ sbox_output(y, 6), sbox_output(x, 7) ^ sbox_output(y, 7),
    );
}

/// Slot `i` of the XOR and of the OR of two S-box results is the XOR and the OR of the
/// two outputs of S-box `i`.
#[verifier::rlimit(50)]
proof fn lemma_s_boxes_slot(x: u64, y: u64, i: int)
    requires
        0 <= i < 8,
    ensures
        slot(s_boxes_spec(x, 8) ^ s_boxes_spec(y, 8), i) == sbox_output(x, i) ^ sbox_output(y, i),
        slot(s_boxes_spec(x, 8) | s_boxes_spec(y, 8), i) == sbox_output(x, i) | sbox_output(y, i),
        sbox_output(x, i) ^ sbox_output(y, i) < 16,
{
    lemma_s_boxes_pack(x);
    lemma_s_boxes_pack(y);
    lemma_pack(
        sbox_output(x, 0), sbox_output(x, 1), sbox_output(x, 2), sbox_output(x, 3),
        sbox_output(x, 4), sbox_output(x, 5), sbox_output(x, 6), sbox_output(x, 7),
        sbox_output(y, 0), sbox_output(y, 1), sbox_output(y, 2), sbox_output(y, 3),
        sbox_output(y, 4), sbox_output(y, 5), sbox_output(y, 6), sbox_output(y, 7),
    );
    lemma_pack(
        sbox_output(x, 0) ^ sbox_output(y, 0), sbox_output(x, 1) ^ sbox_output(y, 1), sbox_output(x, 2) ^ sbox_output(y, 2), sbox_output(x, 3) ^ sbox_output(y, 3), sbox_output(x, 4) ^ sbox_output(y, 4), sbox_output(x, 5) ^ sbox_output(y, 5), sbox_output(x, 6) ^ sbox_output(y, 6), sbox_output(x, 7) ^ sbox_output(y, 7),
        0, 0, 0, 0, 0, 0, 0, 0,
    );
    lemma_pack(
        sbox_output(x, 0) | sbox_output(y, 0), sbox_output(x, 1) | sbox_output(y, 1), sbox_output(x, 2) | sbox_output(y, 2), sbox_output(x, 3) | sbox_output(y, 3), sbox_output(x, 4) | sbox_output(y, 4), sbox_output(x, 5) | sbox_output(y, 5), sbox_output(x, 6) | sbox_output(y, 6), sbox_output(x, 7) | sbox_output(y, 7),
        0, 0, 0, 0, 0, 0, 0, 0,
    );
    if i < 0 {
    } else if i == 0 {
        assert(slot(s_boxes_spec(x, 8) ^ s_boxes_spec(y, 8), 0) == ((s_boxes_spec(x, 8) ^ s_boxes_spec(y, 8)) >> 60u64) & 0xF);
        assert(slot(s_boxes_spec(x, 8) | s_boxes_spec(y, 8), 0) == ((s_boxes_spec(x, 8) | s_boxes_spec(y, 8)) >> 60u64) & 0xF);
    } else if i == 1 {
        assert(slot(s_boxes_spec(x, 8) ^ s_boxes_spec(y, 8), 1) == ((s_boxes_spec(x, 8) ^ s_boxes_spec(y, 8)) >> 56u64) & 0xF);
        assert(slot(s_boxes_spec(x, 8) | s_boxes_spec(y, 8), 1) == ((s_boxes_spec(x, 8) | s_boxes_spec(y, 8)) >> 56u64) & 0xF);
    } else if i == 2 {
        assert(slot(s_boxes_spec(x, 8) ^ s_boxes_spec(y, 8), 2) == ((s_boxes_spec(x, 8) ^ s_boxes_spec(y, 8)) >> 52u64) & 0xF);
        assert(slot(s_boxes_spec(x, 8) | s_boxes_spec(y, 8), 2) == ((s_boxes_spec(x, 8) | s_boxes_spec(y, 8)) >> 52u64) & 0xF);
    } else if i == 3 {
        assert(slot(s_boxes_spec(x, 8) ^ s_boxes_spec(y, 8), 3) == ((s_boxes_spec(x, 8) ^ s_boxes_spec(y, 8)) >> 48u64) & 0xF);
        assert(slot(s_boxes_spec(x, 8) | s_boxes_spec(y, 8), 3) == ((s_boxes_spec(x, 8) | s_boxes_spec(y, 8)) >> 48u64) & 0xF);
    } else if i == 4 {
        assert(slot(s_boxes_spec(x, 8) ^ s_boxes_spec(y, 8), 4) == ((s_boxes_spec(x, 8) ^ s_boxes_spec(y, 8)) >> 44u64) & 0xF);
        assert(slot(s_boxes_spec(x, 8) | s_boxes_spec(y, 8), 4) == ((s_boxes_spec(x, 8) | s_boxes_spec(y, 8)) >> 44u64) & 0xF);
    } else if i == 5 {
        assert(slot(s_boxes_spec(x, 8) ^ s_boxes_spec(y, 8), 5) == ((s_boxes_spec(x, 8) ^ s_boxes_spec(y, 8)) >> 40u64) & 0xF);
        assert(slot(s_boxes_spec(x, 8) | s_boxes_spec(y, 8), 5) == ((s_boxes_spec(x, 8) | s_boxes_spec(y, 8)) >> 40u64) & 0xF);
    } else if i == 6 {
        assert(slot(s_boxes_spec(x, 8) ^ s_boxes_spec(y, 8), 6) == ((s_boxes_spec(x, 8) ^ s_boxes_spec(y, 8)) >> 36u64) & 0xF);
        assert(slot(s_boxes_spec(x, 8) | s_boxes_spec(y, 8), 6) == ((s_boxes_spec(x, 8) | s_boxes_spec(y, 8)) >> 36u64) & 0xF);
    } else if i == 7 {
        assert(slot(s_boxes_spec(x, 8) ^ s_boxes_spec(y, 8), 7) == ((s_boxes_spec(x, 8) ^ s_boxes_spec(y, 8)) >> 32u64) & 0xF);
        assert(slot(s_boxes_spec(x, 8) | s_boxes_spec(y, 8), 7) == ((s_boxes_spec(x, 8) | s_boxes_spec(y, 8)) >> 32u64) & 0xF);
    }
}

/// The two middle bits of S-box `i`'s input flipped: at least two output bits change.
proof fn lemma_middle_slot(x: u64, i: int)
    requires
        0 <= i < 8,
    ensures
        count_ones(slot(s_boxes_spec(x, 8) ^ s_boxes_spec(x ^ rep6(0b001100), 8), i), 64) > 1,
{
    lemma_sbox_design();
    let y = x ^ rep6(0b001100);
    let s = (58 - 6 * i) as u64;
    lemma_rep6(x, 0b001100, s);
    lemma_sbox_output(x, i);
    lemma_sbox_output(y, i);
    lemma_s_boxes_slot(x, y, i);
    lemma_small_count(sbox_output(x, i) ^ sbox_output(y, i));
    assert(nibble_weight(sbox_entry(i as u64, (x >> s) & 0x3F) ^ sbox_entry(i as u64, ((x >> s) & 0x3F) ^ 0b001100u64)) >= 2);
}

/// Flipping the two middle input bits of every S-box changes at least two bits of every
/// S-box output.
pub proof fn lemma_s_boxes_middle_bits(x: u64)
    ensures
        forall|i: int| 0 <= i < 8 ==> count_ones(#[trigger] slot(s_boxes_spec(x, 8) ^ s_boxes_spec(x ^ rep6(0b001100), 8), i), 64) > 1,
{
    assert forall|i: int| 0 <= i < 8 implies count_ones(#[trigger] slot(s_boxes_spec(x, 8) ^ s_boxes_spec(x ^ rep6(0b001100), 8), i), 64) > 1 by {
        lemma_middle_slot(x, i);
    }
}

/// XOR-ing one of the patterns 110100, 111000, 111100 or 110000 into every S-box input
/// never leaves an S-box with output 0 both before and after.
pub proof fn lemma_s_boxes_outer_bits(x: u64, q: u64)
    requires
        q == 0b110100 || q == 0b111000 || q == 0b111100 || q == 0b110000,
    ensures
        forall|i: int| 0 <= i < 8 ==> #[trigger] slot(s_boxes_spec(x ^ rep6(q), 8) | s_boxes_spec(x, 8), i) != 0,
{
    lemma_sbox_design();
    let y = x ^ rep6(q);
    assert forall|i: int| 0 <= i < 8 implies #[trigger] slot(s_boxes_spec(y, 8) | s_boxes_spec(x, 8), i) != 0 by {
        let s = (58 - 6 * i) as u64;
        lemma_rep6(x, q, s);
        lemma_sbox_output(x, i);
        lemma_sbox_output(y, i);
        lemma_s_boxes_slot(y, x, i);
        assert((sbox_entry(i as u64, ((x >> s) & 0x3F) ^ q) | sbox_entry(i as u64, (x >> s) & 0x3F)) != 0);
    }
}


/// 2 to the power `i`, for `i < 6`.
pub open spec fn pow2_small(i: u64) -> u64 {
    if i == 0 {
        1
    } else if i == 1 {
        2
    } else if i == 2 {
        4
    } else if i == 3 {
        8
    } else if i == 4 {
        16
    } else {
        32
    }
}

/// Bit `i` of a six-bit value, in arithmetic.
proof fn lemma_bit_arith(v: u64, i: u64)
    by (bit_vector)
    requires
        v < 64,
        i < 6,
    ensures
        (v >> i) & 1 == (v / pow2_small(i)) % 2,
{
}

/// The sum, over the values `v < n` whose bit `i` is `bit`, of the number of 1 bits of
/// the S-box outputs when every S-box gets the input `v`.
pub open spec fn balance_count(i: u64, bit: u64, n: nat) -> int
    decreases n,
{
    if n == 0 {
        0
    } else {
        let v = (n - 1) as u64;
        balance_count(i, bit, (n - 1) as nat) + if (v >> i) & 1 == bit {
            count_ones(s_boxes_spec(rep6(v), 8), 64) as int
        } else {
            0
        }
    }
}

/// `balance_count` with the output weights read from `row_weight`.
spec fn weight_count(i: u64, bit: u64, n: nat) -> int
    decreases n,
{
    if n == 0 {
        0
    } else {
        let v = (n - 1) as u64;
        weight_count(i, bit, (n - 1) as nat) + if (v / pow2_small(i)) % 2 == bit {
            row_weight(v)
        } else {
            0
        }
    }
}

/// When every S-box gets `v`, the outputs have `row_weight(v)` bits that are 1.
proof fn lemma_row_count(v: u64)
    requires
        v < 64,
    ensures
        count_ones(s_boxes_spec(rep6(v), 8), 64) == row_weight(v),
{
    lemma_sbox_design();
    let x = rep6(v);
    assert forall|k: int| 0 <= k < 8 implies #[trigger] sbox_output(x, k) == sbox_entry(k as u64, v) by {
        lemma_rep6(0, v, (58 - 6 * k) as u64);
        lemma_sbox_output(x, k);
    }
    lemma_s_boxes_pack(x);
    lemma_pack_count(
        sbox_output(x, 0), sbox_output(x, 1), sbox_output(x, 2), sbox_output(x, 3),
        sbox_output(x, 4), sbox_output(x, 5), sbox_output(x, 6), sbox_output(x, 7),
    );
    assert(row_weight(v) == nibble_weight(sbox_entry(0, v)) + nibble_weight(sbox_entry(1, v)) + nibble_weight(sbox_entry(2, v)) + nibble_weight(sbox_entry(3, v)) + nibble_weight(sbox_entry(4, v)) + nibble_weight(sbox_entry(5, v)) + nibble_weight(sbox_entry(6, v)) + nibble_weight(sbox_entry(7, v)));
}

/// `balance_count` read through the output weights of `row_weight`.
proof fn lemma_balance_weights(i: u64, bit: u64, n: nat)
    requires
        i < 6,
        n <= 64,
    ensures
        balance_count(i, bit, n) == weight_count(i, bit, n),
    decreases n,
{
    if n > 0 {
        lemma_balance_weights(i, bit, (n - 1) as nat);
        lemma_bit_arith((n - 1) as u64, i);
        lemma_row_count((n - 1) as u64);
    }
}


/// The weight sums for input bit 0.
#[verifier::rlimit(100)]
proof fn lemma_weight_values_0()
    ensures
        weight_count(0, 0, 64) == 512,
        weight_count(0, 1, 64) == 512,
{
    reveal_with_fuel(weight_count, 65);
}

/// The weight sums for input bit 1.
#[verifier::rlimit(100)]
proof fn lemma_weight_values_1()
    ensures
        weight_count(1, 0, 64) == 503,
        weight_count(1, 1, 64) == 521,
{
    reveal_with_fuel(weight_count, 17);
    assert(pow2_small(1) == 2);
    assert(forall|v: u64| v < 64 ==> #[trigger] (v / 2) % 2 == (v / pow2_small(1)) % 2);
    assert(weight_count(1, 0, 16) == 134);
    assert(weight_count(1, 1, 16) == 128);
    assert(weight_count(1, 0, 32) == 252);
    assert(weight_count(1, 1, 32) == 260);
    assert(weight_count(1, 0, 48) == 376);
    assert(weight_count(1, 1, 48) == 388);
    assert(weight_count(1, 0, 64) == 503);
    assert(weight_count(1, 1, 64) == 521);
}

/// The weight sums for input bit 2.
#[verifier::rlimit(100)]
proof fn lemma_weight_values_2()
    ensures
        weight_count(2, 0, 64) == 511,
        weight_count(2, 1, 64) == 513,
{
    reveal_with_fuel(weight_count, 65);
}

/// The weight sums for input bit 3.
#[verifier::rlimit(100)]
proof fn lemma_weight_values_3()
    ensures
        weight_count(3, 0, 64) == 521,
        weight_count(3, 1, 64) == 503,
{
    reveal_with_fuel(weight_count, 65);
}

/// The weight sums for input bit 4.
#[verifier::rlimit(100)]
proof fn lemma_weight_values_4()
    ensures
        weight_count(4, 0, 64) == 514,
        weight_count(4, 1, 64) == 510,
{
    reveal_with_fuel(weight_count, 65);
}

/// The weight sums for input bit 5.
#[verifier::rlimit(100)]
proof fn lemma_weight_values_5()
    ensures
        weight_count(5, 0, 64) == 512,
        weight_count(5, 1, 64) == 512,
{
    reveal_with_fuel(weight_count, 65);
}

/// When every S-box gets the same input and one input bit is held fixed, the 1 bits and
/// the 0 bits of the outputs, over the 32 inputs left, differ in number by less than 50.
pub proof fn lemma_s_boxes_balance(i: u64, bit: u64)
    requires
        i < 6,
        bit < 2,
    ensures
        -50 < balance_count(i, bit, 64) - (1024 - balance_count(i, bit, 64)) < 50,
{
    lemma_balance_weights(i, bit, 64);
    lemma_weight_values_0();
    lemma_weight_values_1();
    lemma_weight_values_2();
    lemma_weight_values_3();
    lemma_weight_values_4();
    lemma_weight_values_5();
}


} // verus!
