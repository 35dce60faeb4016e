# crypto

Block ciphers (AES-128, DES, SM4) and classical ciphers (Caesar, Vigenère, rail fence),
written in Verus with their behaviour stated in contracts and proved.

- `src/consts.rs`: the AES, DES and SM4 tables (S-boxes, permutations, round constants,
  GF(2^8) logarithm and power tables).
- `src/libaes.rs`, `src/libdes.rs`, `src/libsm4.rs`: the block ciphers; each step and each
  cipher has a specification, and the files prove how decryption relates to encryption:
  for DES it undoes encryption; for SM4 it does once FK is XOR-ed into the ciphertext
  (`SM4::decrypt` XORs FK into its input); for AES it does when no zero byte enters or
  leaves (Inv)MixColumns, since the logarithm-table product treats a 0 factor as 1.
- `src/des_sbox.rs`: the design properties of the DES S-boxes (avalanche of one flipped
  input bit, the middle and outer input patterns, balance of the output bits).
- `src/blocks.rs`: encryption of a whole text, block by block with zero padding.
- `src/shift.rs`, `src/classic.rs`: letter shifting, Caesar, Vigenère and rail fence.
- `src/utils.rs`: bit counting and GF(2^8) arithmetic; `src/gf.rs`: the table product
  against the field product for the MixColumns coefficients, which shows when
  InvMixColumns undoes MixColumns; `src/gen_s_box.rs`: the S-box
  design (the affine step over GF(2) applied to a power in GF(2^8)); `src/config.rs`: the configuration record; `src/bitops.rs`: bit lemmas.
- `app/`: the command-line programs (terminal and file input/output, `config.toml`).

Run `app` with the program name as first argument: `aes`, `des`, `sm4` (these read
`config.toml`), `caesar`, `vigenere`, `fence` (these ask on the terminal) or `gen_s_box`.
