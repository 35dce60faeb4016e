pub mod bitops;
pub mod blocks;
pub mod classic;
pub mod config;
pub mod consts;
pub mod des_sbox;
pub mod gen_s_box;
pub mod gf;
pub mod libaes;
pub mod libdes;
pub mod libsm4;
pub mod shift;
pub mod utils;
