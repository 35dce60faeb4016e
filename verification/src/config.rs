use vstd::prelude::*;

verus! {

/// The settings of the block-cipher programs: where to read the text and the key, where
/// to write the result, and whether to encrypt or decrypt.
pub struct Config {
    pub output_path: String,
    pub input_path: String,
    pub key_path: String,
    pub is_encrypt: bool,
}

/// The contents of a configuration file: its `[config]` table.
pub struct Data {
    pub config: Config,
}

} // verus!
