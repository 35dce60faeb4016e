use vstd::prelude::*;
use crate::consts::{EXP_TABLE, LOG_TABLE};
use crate::utils::gf_mul_spec;

verus! {

/// Multiplication by x in GF(2^8) modulo x^8 + x^4 + x^3 + x + 1: a shift, and the
/// reduction 0x1b when the top bit falls out.
pub open spec fn xtime(a: u8) -> u8 {
    let h = a >> 7u8;
    (a << 1u8) ^ (h | (h << 1u8) | (h << 3u8) | (h << 4u8))
}

/// The product of `a` and `c` in GF(2^8), for the coefficients of MixColumns and
/// InvMixColumns (1, 2, 3, 9, 11, 13 and 14).
pub open spec fn gf_mul_by(a: u8, c: u8) -> u8 {
    if c == 1 {
        a
    } else if c == 2 {
        xtime(a)
    } else if c == 3 {
        xtime(a) ^ a
    } else if c == 9 {
        xtime(xtime(xtime(a))) ^ a
    } else if c == 11 {
        xtime(xtime(xtime(a))) ^ xtime(a) ^ a
    } else if c == 13 {
        xtime(xtime(xtime(a))) ^ xtime(xtime(a)) ^ a
    } else {
        xtime(xtime(xtime(a))) ^ xtime(xtime(a)) ^ xtime(a)
    }
}

/// The table product reduces the sum of the logarithms once below 255.
proof fn lemma_log_sum(x: int, y: int)
    requires
        0 <= x < 255,
        0 <= y < 255,
    ensures
        (x + y) % 255 == if x + y < 255 { x + y } else { x + y - 255 },
{
}

/// Every logarithm in the table is below 255.
proof fn lemma_log_bound()
    ensures
        forall|a: int| 0 <= a < 256 ==> #[trigger] LOG_TABLE[a] < 255,
{
}


/// The table product `gf_mul_spec(a, 1)`, byte by byte.
spec fn products_1(a: u8) -> u8 {
    if a == 0 { 1 } else { a }
}

/// The table products by 1, byte by byte.
#[verifier::rlimit(100)]
proof fn lemma_table_values_1()
    ensures
        forall|a: u8| #[trigger] gf_mul_spec(a, 1u8) == products_1(a),
{
    reveal(gf_mul_spec);
    lemma_log_bound();
    assert(LOG_TABLE[1] == 0);
    assert forall|a: u8| #![trigger gf_mul_spec(a, 1u8)] true implies gf_mul_spec(a, 1u8) == products_1(a) by {
        lemma_log_sum(LOG_TABLE[a as int] as int, 0);
    }
    assert(forall|a: int| 0 <= a < 256 ==> EXP_TABLE[if LOG_TABLE[a] + 0 < 255 { LOG_TABLE[a] + 0 } else { LOG_TABLE[a] + 0 - 255 }] == #[trigger] products_1(a as u8));
}

/// The field products by 1 of the nonzero bytes, byte by byte.
#[verifier::rlimit(100)]
proof fn lemma_field_values_1()
    ensures
        forall|a: u8| a != 0 ==> #[trigger] gf_mul_by(a, 1u8) == products_1(a),
{
}

/// For a nonzero `a`, the table product by 1 is the field product.
pub proof fn lemma_table_product_1()
    ensures
        forall|a: u8| a != 0 ==> #[trigger] gf_mul_spec(a, 1u8) == gf_mul_by(a, 1u8),
{
    lemma_table_values_1();
    lemma_field_values_1();
}

/// The table product `gf_mul_spec(a, 2)`, byte by byte.
spec fn products_2(a: u8) -> u8 {
    if a == 0 { 2 } else if a == 1 { 2 } else if a == 2 { 4 } else if a == 3 { 6 } else if a == 4 { 8 } else if a == 5 { 10 } else
    if a == 6 { 12 } else if a == 7 { 14 } else if a == 8 { 16 } else if a == 9 { 18 } else if a == 10 { 20 } else if a == 11 { 22 } else
    if a == 12 { 24 } else if a == 13 { 26 } else if a == 14 { 28 } else if a == 15 { 30 } else if a == 16 { 32 } else if a == 17 { 34 } else
    if a == 18 { 36 } else if a == 19 { 38 } else if a == 20 { 40 } else if a == 21 { 42 } else if a == 22 { 44 } else if a == 23 { 46 } else
    if a == 24 { 48 } else if a == 25 { 50 } else if a == 26 { 52 } else if a == 27 { 54 } else if a == 28 { 56 } else if a == 29 { 58 } else
    if a == 30 { 60 } else if a == 31 { 62 } else if a == 32 { 64 } else if a == 33 { 66 } else if a == 34 { 68 } else if a == 35 { 70 } else
    if a == 36 { 72 } else if a == 37 { 74 } else if a == 38 { 76 } else if a == 39 { 78 } else if a == 40 { 80 } else if a == 41 { 82 } else
    if a == 42 { 84 } else if a == 43 { 86 } else if a == 44 { 88 } else if a == 45 { 90 } else if a == 46 { 92 } else if a == 47 { 94 } else
    if a == 48 { 96 } else if a == 49 { 98 } else if a == 50 { 100 } else if a == 51 { 102 } else if a == 52 { 104 } else if a == 53 { 106 } else
    if a == 54 { 108 } else if a == 55 { 110 } else if a == 56 { 112 } else if a == 57 { 114 } else if a == 58 { 116 } else if a == 59 { 118 } else
    if a == 60 { 120 } else if a == 61 { 122 } else if a == 62 { 124 } else if a == 63 { 126 } else if a == 64 { 128 } else if a == 65 { 130 } else
    if a == 66 { 132 } else if a == 67 { 134 } else if a == 68 { 136 } else if a == 69 { 138 } else if a == 70 { 140 } else if a == 71 { 142 } else
    if a == 72 { 144 } else if a == 73 { 146 } else if a == 74 { 148 } else if a == 75 { 150 } else if a == 76 { 152 } else if a == 77 { 154 } else
    if a == 78 { 156 } else if a == 79 { 158 } else if a == 80 { 160 } else if a == 81 { 162 } else if a == 82 { 164 } else if a == 83 { 166 } else
    if a == 84 { 168 } else if a == 85 { 170 } else if a == 86 { 172 } else if a == 87 { 174 } else if a == 88 { 176 } else if a == 89 { 178 } else
    if a == 90 { 180 } else if a == 91 { 182 } else if a == 92 { 184 } else if a == 93 { 186 } else if a == 94 { 188 } else if a == 95 { 190 } else
    if a == 96 { 192 } else if a == 97 { 194 } else if a == 98 { 196 } else if a == 99 { 198 } else if a == 100 { 200 } else if a == 101 { 202 } else
    if a == 102 { 204 } else if a == 103 { 206 } else if a == 104 { 208 } else if a == 105 { 210 } else if a == 106 { 212 } else if a == 107 { 214 } else
    if a == 108 { 216 } else if a == 109 { 218 } else if a == 110 { 220 } else if a == 111 { 222 } else if a == 112 { 224 } else if a == 113 { 226 } else
    if a == 114 { 228 } else if a == 115 { 230 } else if a == 116 { 232 } else if a == 117 { 234 } else if a == 118 { 236 } else if a == 119 { 238 } else
    if a == 120 { 240 } else if a == 121 { 242 } else if a == 122 { 244 } else if a == 123 { 246 } else if a == 124 { 248 } else if a == 125 { 250 } else
    if a == 126 { 252 } else if a == 127 { 254 } else if a == 128 { 27 } else if a == 129 { 25 } else if a == 130 { 31 } else if a == 131 { 29 } else
    if a == 132 { 19 } else if a == 133 { 17 } else if a == 134 { 23 } else if a == 135 { 21 } else if a == 136 { 11 } else if a == 137 { 9 } else
    if a == 138 { 15 } else if a == 139 { 13 } else if a == 140 { 3 } else if a == 141 { 1 } else if a == 142 { 7 } else if a == 143 { 5 } else
    if a == 144 { 59 } else if a == 145 { 57 } else if a == 146 { 63 } else if a == 147 { 61 } else if a == 148 { 51 } else if a == 149 { 49 } else
    if a == 150 { 55 } else if a == 151 { 53 } else if a == 152 { 43 } else if a == 153 { 41 } else if a == 154 { 47 } else if a == 155 { 45 } else
    if a == 156 { 35 } else if a == 157 { 33 } else if a == 158 { 39 } else if a == 159 { 37 } else if a == 160 { 91 } else if a == 161 { 89 } else
    if a == 162 { 95 } else if a == 163 { 93 } else if a == 164 { 83 } else if a == 165 { 81 } else if a == 166 { 87 } else if a == 167 { 85 } else
    if a == 168 { 75 } else if a == 169 { 73 } else if a == 170 { 79 } else if a == 171 { 77 } else if a == 172 { 67 } else if a == 173 { 65 } else
    if a == 174 { 71 } else if a == 175 { 69 } else if a == 176 { 123 } else if a == 177 { 121 } else if a == 178 { 127 } else if a == 179 { 125 } else
    if a == 180 { 115 } else if a == 181 { 113 } else if a == 182 { 119 } else if a == 183 { 117 } else if a == 184 { 107 } else if a == 185 { 105 } else
    if a == 186 { 111 } else if a == 187 { 109 } else if a == 188 { 99 } else if a == 189 { 97 } else if a == 190 { 103 } else if a == 191 { 101 } else
    if a == 192 { 155 } else if a == 193 { 153 } else if a == 194 { 159 } else if a == 195 { 157 } else if a == 196 { 147 } else if a == 197 { 145 } else
    if a == 198 { 151 } else if a == 199 { 149 } else if a == 200 { 139 } else if a == 201 { 137 } else if a == 202 { 143 } else if a == 203 { 141 } else
    if a == 204 { 131 } else if a == 205 { 129 } else if a == 206 { 135 } else if a == 207 { 133 } else if a == 208 { 187 } else if a == 209 { 185 } else
    if a == 210 { 191 } else if a == 211 { 189 } else if a == 212 { 179 } else if a == 213 { 177 } else if a == 214 { 183 } else if a == 215 { 181 } else
    if a == 216 { 171 } else if a == 217 { 169 } else if a == 218 { 175 } else if a == 219 { 173 } else if a == 220 { 163 } else if a == 221 { 161 } else
    if a == 222 { 167 } else if a == 223 { 165 } else if a == 224 { 219 } else if a == 225 { 217 } else if a == 226 { 223 } else if a == 227 { 221 } else
    if a == 228 { 211 } else if a == 229 { 209 } else if a == 230 { 215 } else if a == 231 { 213 } else if a == 232 { 203 } else if a == 233 { 201 } else
    if a == 234 { 207 } else if a == 235 { 205 } else if a == 236 { 195 } else if a == 237 { 193 } else if a == 238 { 199 } else if a == 239 { 197 } else
    if a == 240 { 251 } else if a == 241 { 249 } else if a == 242 { 255 } else if a == 243 { 253 } else if a == 244 { 243 } else if a == 245 { 241 } else
    if a == 246 { 247 } else if a == 247 { 245 } else if a == 248 { 235 } else if a == 249 { 233 } else if a == 250 { 239 } else if a == 251 { 237 } else
    if a == 252 { 227 } else if a == 253 { 225 } else if a == 254 { 231 } else
    { 229 }
}

/// The table products by 2, byte by byte.
#[verifier::rlimit(100)]
proof fn lemma_table_values_2()
    ensures
        forall|a: u8| #[trigger] gf_mul_spec(a, 2u8) == products_2(a),
{
    reveal(gf_mul_spec);
    lemma_log_bound();
    assert(LOG_TABLE[2] == 25);
    assert forall|a: u8| #![trigger gf_mul_spec(a, 2u8)] true implies gf_mul_spec(a, 2u8) == products_2(a) by {
        lemma_log_sum(LOG_TABLE[a as int] as int, 25);
    }
    assert(forall|a: int| 0 <= a < 256 ==> EXP_TABLE[if LOG_TABLE[a] + 25 < 255 { LOG_TABLE[a] + 25 } else { LOG_TABLE[a] + 25 - 255 }] == #[trigger] products_2(a as u8));
}

/// The field products by 2 of the nonzero bytes, byte by byte.
#[verifier::rlimit(100)]
proof fn lemma_field_values_2()
    by (bit_vector)
    ensures
        forall|a: u8| a != 0 ==> #[trigger] gf_mul_by(a, 2u8) == products_2(a),
{
}

/// For a nonzero `a`, the table product by 2 is the field product.
pub proof fn lemma_table_product_2()
    ensures
        forall|a: u8| a != 0 ==> #[trigger] gf_mul_spec(a, 2u8) == gf_mul_by(a, 2u8),
{
    lemma_table_values_2();
    lemma_field_values_2();
}

/// The table product `gf_mul_spec(a, 3)`, byte by byte.
spec fn products_3(a: u8) -> u8 {
    if a == 0 { 3 } else if a == 1 { 3 } else if a == 2 { 6 } else if a == 3 { 5 } else if a == 4 { 12 } else if a == 5 { 15 } else
    if a == 6 { 10 } else if a == 7 { 9 } else if a == 8 { 24 } else if a == 9 { 27 } else if a == 10 { 30 } else if a == 11 { 29 } else
    if a == 12 { 20 } else if a == 13 { 23 } else if a == 14 { 18 } else if a == 15 { 17 } else if a == 16 { 48 } else if a == 17 { 51 } else
    if a == 18 { 54 } else if a == 19 { 53 } else if a == 20 { 60 } else if a == 21 { 63 } else if a == 22 { 58 } else if a == 23 { 57 } else
    if a == 24 { 40 } else if a == 25 { 43 } else if a == 26 { 46 } else if a == 27 { 45 } else if a == 28 { 36 } else if a == 29 { 39 } else
    if a == 30 { 34 } else if a == 31 { 33 } else if a == 32 { 96 } else if a == 33 { 99 } else if a == 34 { 102 } else if a == 35 { 101 } else
    if a == 36 { 108 } else if a == 37 { 111 } else if a == 38 { 106 } else if a == 39 { 105 } else if a == 40 { 120 } else if a == 41 { 123 } else
    if a == 42 { 126 } else if a == 43 { 125 } else if a == 44 { 116 } else if a == 45 { 119 } else if a == 46 { 114 } else if a == 47 { 113 } else
    if a == 48 { 80 } else if a == 49 { 83 } else if a == 50 { 86 } else if a == 51 { 85 } else if a == 52 { 92 } else if a == 53 { 95 } else
    if a == 54 { 90 } else if a == 55 { 89 } else if a == 56 { 72 } else if a == 57 { 75 } else if a == 58 { 78 } else if a == 59 { 77 } else
    if a == 60 { 68 } else if a == 61 { 71 } else if a == 62 { 66 } else if a == 63 { 65 } else if a == 64 { 192 } else if a == 65 { 195 } else
    if a == 66 { 198 } else if a == 67 { 197 } else if a == 68 { 204 } else if a == 69 { 207 } else if a == 70 { 202 } else if a == 71 { 201 } else
    if a == 72 { 216 } else if a == 73 { 219 } else if a == 74 { 222 } else if a == 75 { 221 } else if a == 76 { 212 } else if a == 77 { 215 } else
    if a == 78 { 210 } else if a == 79 { 209 } else if a == 80 { 240 } else if a == 81 { 243 } else if a == 82 { 246 } else if a == 83 { 245 } else
    if a == 84 { 252 } else if a == 85 { 255 } else if a == 86 { 250 } else if a == 87 { 249 } else if a == 88 { 232 } else if a == 89 { 235 } else
    if a == 90 { 238 } else if a == 91 { 237 } else if a == 92 { 228 } else if a == 93 { 231 } else if a == 94 { 226 } else if a == 95 { 225 } else
    if a == 96 { 160 } else if a == 97 { 163 } else if a == 98 { 166 } else if a == 99 { 165 } else if a == 100 { 172 } else if a == 101 { 175 } else
    if a == 102 { 170 } else if a == 103 { 169 } else if a == 104 { 184 } else if a == 105 { 187 } else if a == 106 { 190 } else if a == 107 { 189 } else
    if a == 108 { 180 } else if a == 109 { 183 } else if a == 110 { 178 } else if a == 111 { 177 } else if a == 112 { 144 } else if a == 113 { 147 } else
    if a == 114 { 150 } else if a == 115 { 149 } else if a == 116 { 156 } else if a == 117 { 159 } else if a == 118 { 154 } else if a == 119 { 153 } else
    if a == 120 { 136 } else if a == 121 { 139 } else if a == 122 { 142 } else if a == 123 { 141 } else if a == 124 { 132 } else if a == 125 { 135 } else
    if a == 126 { 130 } else if a == 127 { 129 } else if a == 128 { 155 } else if a == 129 { 152 } else if a == 130 { 157 } else if a == 131 { 158 } else
    if a == 132 { 151 } else if a == 133 { 148 } else if a == 134 { 145 } else if a == 135 { 146 } else if a == 136 { 131 } else if a == 137 { 128 } else
    if a == 138 { 133 } else if a == 139 { 134 } else if a == 140 { 143 } else if a == 141 { 140 } else if a == 142 { 137 } else if a == 143 { 138 } else
    if a == 144 { 171 } else if a == 145 { 168 } else if a == 146 { 173 } else if a == 147 { 174 } else if a == 148 { 167 } else if a == 149 { 164 } else
    if a == 150 { 161 } else if a == 151 { 162 } else if a == 152 { 179 } else if a == 153 { 176 } else if a == 154 { 181 } else if a == 155 { 182 } else
    if a == 156 { 191 } else if a == 157 { 188 } else if a == 158 { 185 } else if a == 159 { 186 } else if a == 160 { 251 } else if a == 161 { 248 } else
    if a == 162 { 253 } else if a == 163 { 254 } else if a == 164 { 247 } else if a == 165 { 244 } else if a == 166 { 241 } else if a == 167 { 242 } else
    if a == 168 { 227 } else if a == 169 { 224 } else if a == 170 { 229 } else if a == 171 { 230 } else if a == 172 { 239 } else if a == 173 { 236 } else
    if a == 174 { 233 } else if a == 175 { 234 } else if a == 176 { 203 } else if a == 177 { 200 } else if a == 178 { 205 } else if a == 179 { 206 } else
    if a == 180 { 199 } else if a == 181 { 196 } else if a == 182 { 193 } else if a == 183 { 194 } else if a == 184 { 211 } else if a == 185 { 208 } else
    if a == 186 { 213 } else if a == 187 { 214 } else if a == 188 { 223 } else if a == 189 { 220 } else if a == 190 { 217 } else if a == 191 { 218 } else
    if a == 192 { 91 } else if a == 193 { 88 } else if a == 194 { 93 } else if a == 195 { 94 } else if a == 196 { 87 } else if a == 197 { 84 } else
    if a == 198 { 81 } else if a == 199 { 82 } else if a == 200 { 67 } else if a == 201 { 64 } else if a == 202 { 69 } else if a == 203 { 70 } else
    if a == 204 { 79 } else if a == 205 { 76 } else if a == 206 { 73 } else if a == 207 { 74 } else if a == 208 { 107 } else if a == 209 { 104 } else
    if a == 210 { 109 } else if a == 211 { 110 } else if a == 212 { 103 } else if a == 213 { 100 } else if a == 214 { 97 } else if a == 215 { 98 } else
    if a == 216 { 115 } else if a == 217 { 112 } else if a == 218 { 117 } else if a == 219 { 118 } else if a == 220 { 127 } else if a == 221 { 124 } else
    if a == 222 { 121 } else if a == 223 { 122 } else if a == 224 { 59 } else if a == 225 { 56 } else if a == 226 { 61 } else if a == 227 { 62 } else
    if a == 228 { 55 } else if a == 229 { 52 } else if a == 230 { 49 } else if a == 231 { 50 } else if a == 232 { 35 } else if a == 233 { 32 } else
    if a == 234 { 37 } else if a == 235 { 38 } else if a == 236 { 47 } else if a == 237 { 44 } else if a == 238 { 41 } else if a == 239 { 42 } else
    if a == 240 { 11 } else if a == 241 { 8 } else if a == 242 { 13 } else if a == 243 { 14 } else if a == 244 { 7 } else if a == 245 { 4 } else
    if a == 246 { 1 } else if a == 247 { 2 } else if a == 248 { 19 } else if a == 249 { 16 } else if a == 250 { 21 } else if a == 251 { 22 } else
    if a == 252 { 31 } else if a == 253 { 28 } else if a == 254 { 25 } else
    { 26 }
}

/// The table products by 3, byte by byte.
#[verifier::rlimit(100)]
proof fn lemma_table_values_3()
    ensures
        forall|a: u8| #[trigger] gf_mul_spec(a, 3u8) == products_3(a),
{
    reveal(gf_mul_spec);
    lemma_log_bound();
    assert(LOG_TABLE[3] == 1);
    assert forall|a: u8| #![trigger gf_mul_spec(a, 3u8)] true implies gf_mul_spec(a, 3u8) == products_3(a) by {
        lemma_log_sum(LOG_TABLE[a as int] as int, 1);
    }
    assert(forall|a: int| 0 <= a < 256 ==> EXP_TABLE[if LOG_TABLE[a] + 1 < 255 { LOG_TABLE[a] + 1 } else { LOG_TABLE[a] + 1 - 255 }] == #[trigger] products_3(a as u8));
}

/// The field products by 3 of the nonzero bytes, byte by byte.
#[verifier::rlimit(100)]
proof fn lemma_field_values_3()
    by (bit_vector)
    ensures
        forall|a: u8| a != 0 ==> #[trigger] gf_mul_by(a, 3u8) == products_3(a),
{
}

/// For a nonzero `a`, the table product by 3 is the field product.
pub proof fn lemma_table_product_3()
    ensures
        forall|a: u8| a != 0 ==> #[trigger] gf_mul_spec(a, 3u8) == gf_mul_by(a, 3u8),
{
    lemma_table_values_3();
    lemma_field_values_3();
}

/// The table product `gf_mul_spec(a, 9)`, byte by byte.
spec fn products_9(a: u8) -> u8 {
    if a == 0 { 9 } else if a == 1 { 9 } else if a == 2 { 18 } else if a == 3 { 27 } else if a == 4 { 36 } else if a == 5 { 45 } else
    if a == 6 { 54 } else if a == 7 { 63 } else if a == 8 { 72 } else if a == 9 { 65 } else if a == 10 { 90 } else if a == 11 { 83 } else
    if a == 12 { 108 } else if a == 13 { 101 } else if a == 14 { 126 } else if a == 15 { 119 } else if a == 16 { 144 } else if a == 17 { 153 } else
    if a == 18 { 130 } else if a == 19 { 139 } else if a == 20 { 180 } else if a == 21 { 189 } else if a == 22 { 166 } else if a == 23 { 175 } else
    if a == 24 { 216 } else if a == 25 { 209 } else if a == 26 { 202 } else if a == 27 { 195 } else if a == 28 { 252 } else if a == 29 { 245 } else
    if a == 30 { 238 } else if a == 31 { 231 } else if a == 32 { 59 } else if a == 33 { 50 } else if a == 34 { 41 } else if a == 35 { 32 } else
    if a == 36 { 31 } else if a == 37 { 22 } else if a == 38 { 13 } else if a == 39 { 4 } else if a == 40 { 115 } else if a == 41 { 122 } else
    if a == 42 { 97 } else if a == 43 { 104 } else if a == 44 { 87 } else if a == 45 { 94 } else if a == 46 { 69 } else if a == 47 { 76 } else
    if a == 48 { 171 } else if a == 49 { 162 } else if a == 50 { 185 } else if a == 51 { 176 } else if a == 52 { 143 } else if a == 53 { 134 } else
    if a == 54 { 157 } else if a == 55 { 148 } else if a == 56 { 227 } else if a == 57 { 234 } else if a == 58 { 241 } else if a == 59 { 248 } else
    if a == 60 { 199 } else if a == 61 { 206 } else if a == 62 { 213 } else if a == 63 { 220 } else if a == 64 { 118 } else if a == 65 { 127 } else
    if a == 66 { 100 } else if a == 67 { 109 } else if a == 68 { 82 } else if a == 69 { 91 } else if a == 70 { 64 } else if a == 71 { 73 } else
    if a == 72 { 62 } else if a == 73 { 55 } else if a == 74 { 44 } else if a == 75 { 37 } else if a == 76 { 26 } else if a == 77 { 19 } else
    if a == 78 { 8 } else if a == 79 { 1 } else if a == 80 { 230 } else if a == 81 { 239 } else if a == 82 { 244 } else if a == 83 { 253 } else
    if a == 84 { 194 } else if a == 85 { 203 } else if a == 86 { 208 } else if a == 87 { 217 } else if a == 88 { 174 } else if a == 89 { 167 } else
    if a == 90 { 188 } else if a == 91 { 181 } else if a == 92 { 138 } else if a == 93 { 131 } else if a == 94 { 152 } else if a == 95 { 145 } else
    if a == 96 { 77 } else if a == 97 { 68 } else if a == 98 { 95 } else if a == 99 { 86 } else if a == 100 { 105 } else if a == 101 { 96 } else
    if a == 102 { 123 } else if a == 103 { 114 } else if a == 104 { 5 } else if a == 105 { 12 } else if a == 106 { 23 } else if a == 107 { 30 } else
    if a == 108 { 33 } else if a == 109 { 40 } else if a == 110 { 51 } else if a == 111 { 58 } else if a == 112 { 221 } else if a == 113 { 212 } else
    if a == 114 { 207 } else if a == 115 { 198 } else if a == 116 { 249 } else if a == 117 { 240 } else if a == 118 { 235 } else if a == 119 { 226 } else
    if a == 120 { 149 } else if a == 121 { 156 } else if a == 122 { 135 } else if a == 123 { 142 } else if a == 124 { 177 } else if a == 125 { 184 } else
    if a == 126 { 163 } else if a == 127 { 170 } else if a == 128 { 236 } else if a == 129 { 229 } else if a == 130 { 254 } else if a == 131 { 247 } else
    if a == 132 { 200 } else if a == 133 { 193 } else if a == 134 { 218 } else if a == 135 { 211 } else if a == 136 { 164 } else if a == 137 { 173 } else
    if a == 138 { 182 } else if a == 139 { 191 } else if a == 140 { 128 } else if a == 141 { 137 } else if a == 142 { 146 } else if a == 143 { 155 } else
    if a == 144 { 124 } else if a == 145 { 117 } else if a == 146 { 110 } else if a == 147 { 103 } else if a == 148 { 88 } else if a == 149 { 81 } else
    if a == 150 { 74 } else if a == 151 { 67 } else if a == 152 { 52 } else if a == 153 { 61 } else if a == 154 { 38 } else if a == 155 { 47 } else
    if a == 156 { 16 } else if a == 157 { 25 } else if a == 158 { 2 } else if a == 159 { 11 } else if a == 160 { 215 } else if a == 161 { 222 } else
    if a == 162 { 197 } else if a == 163 { 204 } else if a == 164 { 243 } else if a == 165 { 250 } else if a == 166 { 225 } else if a == 167 { 232 } else
    if a == 168 { 159 } else if a == 169 { 150 } else if a == 170 { 141 } else if a == 171 { 132 } else if a == 172 { 187 } else if a == 173 { 178 } else
    if a == 174 { 169 } else if a == 175 { 160 } else if a == 176 { 71 } else if a == 177 { 78 } else if a == 178 { 85 } else if a == 179 { 92 } else
    if a == 180 { 99 } else if a == 181 { 106 } else if a == 182 { 113 } else if a == 183 { 120 } else if a == 184 { 15 } else if a == 185 { 6 } else
    if a == 186 { 29 } else if a == 187 { 20 } else if a == 188 { 43 } else if a == 189 { 34 } else if a == 190 { 57 } else if a == 191 { 48 } else
    if a == 192 { 154 } else if a == 193 { 147 } else if a == 194 { 136 } else if a == 195 { 129 } else if a == 196 { 190 } else if a == 197 { 183 } else
    if a == 198 { 172 } else if a == 199 { 165 } else if a == 200 { 210 } else if a == 201 { 219 } else if a == 202 { 192 } else if a == 203 { 201 } else
    if a == 204 { 246 } else if a == 205 { 255 } else if a == 206 { 228 } else if a == 207 { 237 } else if a == 208 { 10 } else if a == 209 { 3 } else
    if a == 210 { 24 } else if a == 211 { 17 } else if a == 212 { 46 } else if a == 213 { 39 } else if a == 214 { 60 } else if a == 215 { 53 } else
    if a == 216 { 66 } else if a == 217 { 75 } else if a == 218 { 80 } else if a == 219 { 89 } else if a == 220 { 102 } else if a == 221 { 111 } else
    if a == 222 { 116 } else if a == 223 { 125 } else if a == 224 { 161 } else if a == 225 { 168 } else if a == 226 { 179 } else if a == 227 { 186 } else
    if a == 228 { 133 } else if a == 229 { 140 } else if a == 230 { 151 } else if a == 231 { 158 } else if a == 232 { 233 } else if a == 233 { 224 } else
    if a == 234 { 251 } else if a == 235 { 242 } else if a == 236 { 205 } else if a == 237 { 196 } else if a == 238 { 223 } else if a == 239 { 214 } else
    if a == 240 { 49 } else if a == 241 { 56 } else if a == 242 { 35 } else if a == 243 { 42 } else if a == 244 { 21 } else if a == 245 { 28 } else
    if a == 246 { 7 } else if a == 247 { 14 } else if a == 248 { 121 } else if a == 249 { 112 } else if a == 250 { 107 } else if a == 251 { 98 } else
    if a == 252 { 93 } else if a == 253 { 84 } else if a == 254 { 79 } else
    { 70 }
}

/// The table products by 9, byte by byte.
#[verifier::rlimit(100)]
proof fn lemma_table_values_9()
    ensures
        forall|a: u8| #[trigger] gf_mul_spec(a, 9u8) == products_9(a),
{
    reveal(gf_mul_spec);
    lemma_log_bound();
    assert(LOG_TABLE[9] == 199);
    assert forall|a: u8| #![trigger gf_mul_spec(a, 9u8)] true implies gf_mul_spec(a, 9u8) == products_9(a) by {
        lemma_log_sum(LOG_TABLE[a as int] as int, 199);
    }
    assert(forall|a: int| 0 <= a < 256 ==> EXP_TABLE[if LOG_TABLE[a] + 199 < 255 { LOG_TABLE[a] + 199 } else { LOG_TABLE[a] + 199 - 255 }] == #[trigger] products_9(a as u8));
}

/// The field products by 9 of the nonzero bytes, byte by byte.
#[verifier::rlimit(100)]
proof fn lemma_field_values_9()
    by (bit_vector)
    ensures
        forall|a: u8| a != 0 ==> #[trigger] gf_mul_by(a, 9u8) == products_9(a),
{
}

/// For a nonzero `a`, the table product by 9 is the field product.
pub proof fn lemma_table_product_9()
    ensures
        forall|a: u8| a != 0 ==> #[trigger] gf_mul_spec(a, 9u8) == gf_mul_by(a, 9u8),
{
    lemma_table_values_9();
    lemma_field_values_9();
}

/// The table product `gf_mul_spec(a, 11)`, byte by byte.
spec fn products_11(a: u8) -> u8 {
    if a == 0 { 11 } else if a == 1 { 11 } else if a == 2 { 22 } else if a == 3 { 29 } else if a == 4 { 44 } else if a == 5 { 39 } else
    if a == 6 { 58 } else if a == 7 { 49 } else if a == 8 { 88 } else if a == 9 { 83 } else if a == 10 { 78 } else if a == 11 { 69 } else
    if a == 12 { 116 } else if a == 13 { 127 } else if a == 14 { 98 } else if a == 15 { 105 } else if a == 16 { 176 } else if a == 17 { 187 } else
    if a == 18 { 166 } else if a == 19 { 173 } else if a == 20 { 156 } else if a == 21 { 151 } else if a == 22 { 138 } else if a == 23 { 129 } else
    if a == 24 { 232 } else if a == 25 { 227 } else if a == 26 { 254 } else if a == 27 { 245 } else if a == 28 { 196 } else if a == 29 { 207 } else
    if a == 30 { 210 } else if a == 31 { 217 } else if a == 32 { 123 } else if a == 33 { 112 } else if a == 34 { 109 } else if a == 35 { 102 } else
    if a == 36 { 87 } else if a == 37 { 92 } else if a == 38 { 65 } else if a == 39 { 74 } else if a == 40 { 35 } else if a == 41 { 40 } else
    if a == 42 { 53 } else if a == 43 { 62 } else if a == 44 { 15 } else if a == 45 { 4 } else if a == 46 { 25 } else if a == 47 { 18 } else
    if a == 48 { 203 } else if a == 49 { 192 } else if a == 50 { 221 } else if a == 51 { 214 } else if a == 52 { 231 } else if a == 53 { 236 } else
    if a == 54 { 241 } else if a == 55 { 250 } else if a == 56 { 147 } else if a == 57 { 152 } else if a == 58 { 133 } else if a == 59 { 142 } else
    if a == 60 { 191 } else if a == 61 { 180 } else if a == 62 { 169 } else if a == 63 { 162 } else if a == 64 { 246 } else if a == 65 { 253 } else
    if a == 66 { 224 } else if a == 67 { 235 } else if a == 68 { 218 } else if a == 69 { 209 } else if a == 70 { 204 } else if a == 71 { 199 } else
    if a == 72 { 174 } else if a == 73 { 165 } else if a == 74 { 184 } else if a == 75 { 179 } else if a == 76 { 130 } else if a == 77 { 137 } else
    if a == 78 { 148 } else if a == 79 { 159 } else if a == 80 { 70 } else if a == 81 { 77 } else if a == 82 { 80 } else if a == 83 { 91 } else
    if a == 84 { 106 } else if a == 85 { 97 } else if a == 86 { 124 } else if a == 87 { 119 } else if a == 88 { 30 } else if a == 89 { 21 } else
    if a == 90 { 8 } else if a == 91 { 3 } else if a == 92 { 50 } else if a == 93 { 57 } else if a == 94 { 36 } else if a == 95 { 47 } else
    if a == 96 { 141 } else if a == 97 { 134 } else if a == 98 { 155 } else if a == 99 { 144 } else if a == 100 { 161 } else if a == 101 { 170 } else
    if a == 102 { 183 } else if a == 103 { 188 } else if a == 104 { 213 } else if a == 105 { 222 } else if a == 106 { 195 } else if a == 107 { 200 } else
    if a == 108 { 249 } else if a == 109 { 242 } else if a == 110 { 239 } else if a == 111 { 228 } else if a == 112 { 61 } else if a == 113 { 54 } else
    if a == 114 { 43 } else if a == 115 { 32 } else if a == 116 { 17 } else if a == 117 { 26 } else if a == 118 { 7 } else if a == 119 { 12 } else
    if a == 120 { 101 } else if a == 121 { 110 } else if a == 122 { 115 } else if a == 123 { 120 } else if a == 124 { 73 } else if a == 125 { 66 } else
    if a == 126 { 95 } else if a == 127 { 84 } else if a == 128 { 247 } else if a == 129 { 252 } else if a == 130 { 225 } else if a == 131 { 234 } else
    if a == 132 { 219 } else if a == 133 { 208 } else if a == 134 { 205 } else if a == 135 { 198 } else if a == 136 { 175 } else if a == 137 { 164 } else
    if a == 138 { 185 } else if a == 139 { 178 } else if a == 140 { 131 } else if a == 141 { 136 } else if a == 142 { 149 } else if a == 143 { 158 } else
    if a == 144 { 71 } else if a == 145 { 76 } else if a == 146 { 81 } else if a == 147 { 90 } else if a == 148 { 107 } else if a == 149 { 96 } else
    if a == 150 { 125 } else if a == 151 { 118 } else if a == 152 { 31 } else if a == 153 { 20 } else if a == 154 { 9 } else if a == 155 { 2 } else
    if a == 156 { 51 } else if a == 157 { 56 } else if a == 158 { 37 } else if a == 159 { 46 } else if a == 160 { 140 } else if a == 161 { 135 } else
    if a == 162 { 154 } else if a == 163 { 145 } else if a == 164 { 160 } else if a == 165 { 171 } else if a == 166 { 182 } else if a == 167 { 189 } else
    if a == 168 { 212 } else if a == 169 { 223 } else if a == 170 { 194 } else if a == 171 { 201 } else if a == 172 { 248 } else if a == 173 { 243 } else
    if a == 174 { 238 } else if a == 175 { 229 } else if a == 176 { 60 } else if a == 177 { 55 } else if a == 178 { 42 } else if a == 179 { 33 } else
    if a == 180 { 16 } else if a == 181 { 27 } else if a == 182 { 6 } else if a == 183 { 13 } else if a == 184 { 100 } else if a == 185 { 111 } else
    if a == 186 { 114 } else if a == 187 { 121 } else if a == 188 { 72 } else if a == 189 { 67 } else if a == 190 { 94 } else if a == 191 { 85 } else
    if a == 192 { 1 } else if a == 193 { 10 } else if a == 194 { 23 } else if a == 195 { 28 } else if a == 196 { 45 } else if a == 197 { 38 } else
    if a == 198 { 59 } else if a == 199 { 48 } else if a == 200 { 89 } else if a == 201 { 82 } else if a == 202 { 79 } else if a == 203 { 68 } else
    if a == 204 { 117 } else if a == 205 { 126 } else if a == 206 { 99 } else if a == 207 { 104 } else if a == 208 { 177 } else if a == 209 { 186 } else
    if a == 210 { 167 } else if a == 211 { 172 } else if a == 212 { 157 } else if a == 213 { 150 } else if a == 214 { 139 } else if a == 215 { 128 } else
    if a == 216 { 233 } else if a == 217 { 226 } else if a == 218 { 255 } else if a == 219 { 244 } else if a == 220 { 197 } else if a == 221 { 206 } else
    if a == 222 { 211 } else if a == 223 { 216 } else if a == 224 { 122 } else if a == 225 { 113 } else if a == 226 { 108 } else if a == 227 { 103 } else
    if a == 228 { 86 } else if a == 229 { 93 } else if a == 230 { 64 } else if a == 231 { 75 } else if a == 232 { 34 } else if a == 233 { 41 } else
    if a == 234 { 52 } else if a == 235 { 63 } else if a == 236 { 14 } else if a == 237 { 5 } else if a == 238 { 24 } else if a == 239 { 19 } else
    if a == 240 { 202 } else if a == 241 { 193 } else if a == 242 { 220 } else if a == 243 { 215 } else if a == 244 { 230 } else if a == 245 { 237 } else
    if a == 246 { 240 } else if a == 247 { 251 } else if a == 248 { 146 } else if a == 249 { 153 } else if a == 250 { 132 } else if a == 251 { 143 } else
    if a == 252 { 190 } else if a == 253 { 181 } else if a == 254 { 168 } else
    { 163 }
}

/// The table products by 11, byte by byte.
#[verifier::rlimit(100)]
proof fn lemma_table_values_11()
    ensures
        forall|a: u8| #[trigger] gf_mul_spec(a, 11u8) == products_11(a),
{
    reveal(gf_mul_spec);
    lemma_log_bound();
    assert(LOG_TABLE[11] == 104);
    assert forall|a: u8| #![trigger gf_mul_spec(a, 11u8)] true implies gf_mul_spec(a, 11u8) == products_11(a) by {
        lemma_log_sum(LOG_TABLE[a as int] as int, 104);
    }
    assert(forall|a: int| 0 <= a < 256 ==> EXP_TABLE[if LOG_TABLE[a] + 104 < 255 { LOG_TABLE[a] + 104 } else { LOG_TABLE[a] + 104 - 255 }] == #[trigger] products_11(a as u8));
}

/// The field products by 11 of the nonzero bytes, byte by byte.
#[verifier::rlimit(100)]
proof fn lemma_field_values_11()
    by (bit_vector)
    ensures
        forall|a: u8| a != 0 ==> #[trigger] gf_mul_by(a, 11u8) == products_11(a),
{
}

/// For a nonzero `a`, the table product by 11 is the field product.
pub proof fn lemma_table_product_11()
    ensures
        forall|a: u8| a != 0 ==> #[trigger] gf_mul_spec(a, 11u8) == gf_mul_by(a, 11u8),
{
    lemma_table_values_11();
    lemma_field_values_11();
}

/// The table product `gf_mul_spec(a, 13)`, byte by byte.
spec fn products_13(a: u8) -> u8 {
    if a == 0 { 13 } else if a == 1 { 13 } else if a == 2 { 26 } else if a == 3 { 23 } else if a == 4 { 52 } else if a == 5 { 57 } else
    if a == 6 { 46 } else if a == 7 { 35 } else if a == 8 { 104 } else if a == 9 { 101 } else if a == 10 { 114 } else if a == 11 { 127 } else
    if a == 12 { 92 } else if a == 13 { 81 } else if a == 14 { 70 } else if a == 15 { 75 } else if a == 16 { 208 } else if a == 17 { 221 } else
    if a == 18 { 202 } else if a == 19 { 199 } else if a == 20 { 228 } else if a == 21 { 233 } else if a == 22 { 254 } else if a == 23 { 243 } else
    if a == 24 { 184 } else if a == 25 { 181 } else if a == 26 { 162 } else if a == 27 { 175 } else if a == 28 { 140 } else if a == 29 { 129 } else
    if a == 30 { 150 } else if a == 31 { 155 } else if a == 32 { 187 } else if a == 33 { 182 } else if a == 34 { 161 } else if a == 35 { 172 } else
    if a == 36 { 143 } else if a == 37 { 130 } else if a == 38 { 149 } else if a == 39 { 152 } else if a == 40 { 211 } else if a == 41 { 222 } else
    if a == 42 { 201 } else if a == 43 { 196 } else if a == 44 { 231 } else if a == 45 { 234 } else if a == 46 { 253 } else if a == 47 { 240 } else
    if a == 48 { 107 } else if a == 49 { 102 } else if a == 50 { 113 } else if a == 51 { 124 } else if a == 52 { 95 } else if a == 53 { 82 } else
    if a == 54 { 69 } else if a == 55 { 72 } else if a == 56 { 3 } else if a == 57 { 14 } else if a == 58 { 25 } else if a == 59 { 20 } else
    if a == 60 { 55 } else if a == 61 { 58 } else if a == 62 { 45 } else if a == 63 { 32 } else if a == 64 { 109 } else if a == 65 { 96 } else
    if a == 66 { 119 } else if a == 67 { 122 } else if a == 68 { 89 } else if a == 69 { 84 } else if a == 70 { 67 } else if a == 71 { 78 } else
    if a == 72 { 5 } else if a == 73 { 8 } else if a == 74 { 31 } else if a == 75 { 18 } else if a == 76 { 49 } else if a == 77 { 60 } else
    if a == 78 { 43 } else if a == 79 { 38 } else if a == 80 { 189 } else if a == 81 { 176 } else if a == 82 { 167 } else if a == 83 { 170 } else
    if a == 84 { 137 } else if a == 85 { 132 } else if a == 86 { 147 } else if a == 87 { 158 } else if a == 88 { 213 } else if a == 89 { 216 } else
    if a == 90 { 207 } else if a == 91 { 194 } else if a == 92 { 225 } else if a == 93 { 236 } else if a == 94 { 251 } else if a == 95 { 246 } else
    if a == 96 { 214 } else if a == 97 { 219 } else if a == 98 { 204 } else if a == 99 { 193 } else if a == 100 { 226 } else if a == 101 { 239 } else
    if a == 102 { 248 } else if a == 103 { 245 } else if a == 104 { 190 } else if a == 105 { 179 } else if a == 106 { 164 } else if a == 107 { 169 } else
    if a == 108 { 138 } else if a == 109 { 135 } else if a == 110 { 144 } else if a == 111 { 157 } else if a == 112 { 6 } else if a == 113 { 11 } else
    if a == 114 { 28 } else if a == 115 { 17 } else if a == 116 { 50 } else if a == 117 { 63 } else if a == 118 { 40 } else if a == 119 { 37 } else
    if a == 120 { 110 } else if a == 121 { 99 } else if a == 122 { 116 } else if a == 123 { 121 } else if a == 124 { 90 } else if a == 125 { 87 } else
    if a == 126 { 64 } else if a == 127 { 77 } else if a == 128 { 218 } else if a == 129 { 215 } else if a == 130 { 192 } else if a == 131 { 205 } else
    if a == 132 { 238 } else if a == 133 { 227 } else if a == 134 { 244 } else if a == 135 { 249 } else if a == 136 { 178 } else if a == 137 { 191 } else
    if a == 138 { 168 } else if a == 139 { 165 } else if a == 140 { 134 } else if a == 141 { 139 } else if a == 142 { 156 } else if a == 143 { 145 } else
    if a == 144 { 10 } else if a == 145 { 7 } else if a == 146 { 16 } else if a == 147 { 29 } else if a == 148 { 62 } else if a == 149 { 51 } else
    if a == 150 { 36 } else if a == 151 { 41 } else if a == 152 { 98 } else if a == 153 { 111 } else if a == 154 { 120 } else if a == 155 { 117 } else
    if a == 156 { 86 } else if a == 157 { 91 } else if a == 158 { 76 } else if a == 159 { 65 } else if a == 160 { 97 } else if a == 161 { 108 } else
    if a == 162 { 123 } else if a == 163 { 118 } else if a == 164 { 85 } else if a == 165 { 88 } else if a == 166 { 79 } else if a == 167 { 66 } else
    if a == 168 { 9 } else if a == 169 { 4 } else if a == 170 { 19 } else if a == 171 { 30 } else if a == 172 { 61 } else if a == 173 { 48 } else
    if a == 174 { 39 } else if a == 175 { 42 } else if a == 176 { 177 } else if a == 177 { 188 } else if a == 178 { 171 } else if a == 179 { 166 } else
    if a == 180 { 133 } else if a == 181 { 136 } else if a == 182 { 159 } else if a == 183 { 146 } else if a == 184 { 217 } else if a == 185 { 212 } else
    if a == 186 { 195 } else if a == 187 { 206 } else if a == 188 { 237 } else if a == 189 { 224 } else if a == 190 { 247 } else if a == 191 { 250 } else
    if a == 192 { 183 } else if a == 193 { 186 } else if a == 194 { 173 } else if a == 195 { 160 } else if a == 196 { 131 } else if a == 197 { 142 } else
    if a == 198 { 153 } else if a == 199 { 148 } else if a == 200 { 223 } else if a == 201 { 210 } else if a == 202 { 197 } else if a == 203 { 200 } else
    if a == 204 { 235 } else if a == 205 { 230 } else if a == 206 { 241 } else if a == 207 { 252 } else if a == 208 { 103 } else if a == 209 { 106 } else
    if a == 210 { 125 } else if a == 211 { 112 } else if a == 212 { 83 } else if a == 213 { 94 } else if a == 214 { 73 } else if a == 215 { 68 } else
    if a == 216 { 15 } else if a == 217 { 2 } else if a == 218 { 21 } else if a == 219 { 24 } else if a == 220 { 59 } else if a == 221 { 54 } else
    if a == 222 { 33 } else if a == 223 { 44 } else if a == 224 { 12 } else if a == 225 { 1 } else if a == 226 { 22 } else if a == 227 { 27 } else
    if a == 228 { 56 } else if a == 229 { 53 } else if a == 230 { 34 } else if a == 231 { 47 } else if a == 232 { 100 } else if a == 233 { 105 } else
    if a == 234 { 126 } else if a == 235 { 115 } else if a == 236 { 80 } else if a == 237 { 93 } else if a == 238 { 74 } else if a == 239 { 71 } else
    if a == 240 { 220 } else if a == 241 { 209 } else if a == 242 { 198 } else if a == 243 { 203 } else if a == 244 { 232 } else if a == 245 { 229 } else
    if a == 246 { 242 } else if a == 247 { 255 } else if a == 248 { 180 } else if a == 249 { 185 } else if a == 250 { 174 } else if a == 251 { 163 } else
    if a == 252 { 128 } else if a == 253 { 141 } else if a == 254 { 154 } else
    { 151 }
}

/// The table products by 13, byte by byte.
#[verifier::rlimit(100)]
proof fn lemma_table_values_13()
    ensures
        forall|a: u8| #[trigger] gf_mul_spec(a, 13u8) == products_13(a),
{
    reveal(gf_mul_spec);
    lemma_log_bound();
    assert(LOG_TABLE[13] == 238);
    assert forall|a: u8| #![trigger gf_mul_spec(a, 13u8)] true implies gf_mul_spec(a, 13u8) == products_13(a) by {
        lemma_log_sum(LOG_TABLE[a as int] as int, 238);
    }
    assert(forall|a: int| 0 <= a < 256 ==> EXP_TABLE[if LOG_TABLE[a] + 238 < 255 { LOG_TABLE[a] + 238 } else { LOG_TABLE[a] + 238 - 255 }] == #[trigger] products_13(a as u8));
}

/// The field products by 13 of the nonzero bytes, byte by byte.
#[verifier::rlimit(100)]
proof fn lemma_field_values_13()
    by (bit_vector)
    ensures
        forall|a: u8| a != 0 ==> #[trigger] gf_mul_by(a, 13u8) == products_13(a),
{
}

/// For a nonzero `a`, the table product by 13 is the field product.
pub proof fn lemma_table_product_13()
    ensures
        forall|a: u8| a != 0 ==> #[trigger] gf_mul_spec(a, 13u8) == gf_mul_by(a, 13u8),
{
    lemma_table_values_13();
    lemma_field_values_13();
}

/// The table product `gf_mul_spec(a, 14)`, byte by byte.
spec fn products_14(a: u8) -> u8 {
    if a == 0 { 14 } else if a == 1 { 14 } else if a == 2 { 28 } else if a == 3 { 18 } else if a == 4 { 56 } else if a == 5 { 54 } else
    if a == 6 { 36 } else if a == 7 { 42 } else if a == 8 { 112 } else if a == 9 { 126 } else if a == 10 { 108 } else if a == 11 { 98 } else
    if a == 12 { 72 } else if a == 13 { 70 } else if a == 14 { 84 } else if a == 15 { 90 } else if a == 16 { 224 } else if a == 17 { 238 } else
    if a == 18 { 252 } else if a == 19 { 242 } else if a == 20 { 216 } else if a == 21 { 214 } else if a == 22 { 196 } else if a == 23 { 202 } else
    if a == 24 { 144 } else if a == 25 { 158 } else if a == 26 { 140 } else if a == 27 { 130 } else if a == 28 { 168 } else if a == 29 { 166 } else
    if a == 30 { 180 } else if a == 31 { 186 } else if a == 32 { 219 } else if a == 33 { 213 } else if a == 34 { 199 } else if a == 35 { 201 } else
    if a == 36 { 227 } else if a == 37 { 237 } else if a == 38 { 255 } else if a == 39 { 241 } else if a == 40 { 171 } else if a == 41 { 165 } else
    if a == 42 { 183 } else if a == 43 { 185 } else if a == 44 { 147 } else if a == 45 { 157 } else if a == 46 { 143 } else if a == 47 { 129 } else
    if a == 48 { 59 } else if a == 49 { 53 } else if a == 50 { 39 } else if a == 51 { 41 } else if a == 52 { 3 } else if a == 53 { 13 } else
    if a == 54 { 31 } else if a == 55 { 17 } else if a == 56 { 75 } else if a == 57 { 69 } else if a == 58 { 87 } else if a == 59 { 89 } else
    if a == 60 { 115 } else if a == 61 { 125 } else if a == 62 { 111 } else if a == 63 { 97 } else if a == 64 { 173 } else if a == 65 { 163 } else
    if a == 66 { 177 } else if a == 67 { 191 } else if a == 68 { 149 } else if a == 69 { 155 } else if a == 70 { 137 } else if a == 71 { 135 } else
    if a == 72 { 221 } else if a == 73 { 211 } else if a == 74 { 193 } else if a == 75 { 207 } else if a == 76 { 229 } else if a == 77 { 235 } else
    if a == 78 { 249 } else if a == 79 { 247 } else if a == 80 { 77 } else if a == 81 { 67 } else if a == 82 { 81 } else if a == 83 { 95 } else
    if a == 84 { 117 } else if a == 85 { 123 } else if a == 86 { 105 } else if a == 87 { 103 } else if a == 88 { 61 } else if a == 89 { 51 } else
    if a == 90 { 33 } else if a == 91 { 47 } else if a == 92 { 5 } else if a == 93 { 11 } else if a == 94 { 25 } else if a == 95 { 23 } else
    if a == 96 { 118 } else if a == 97 { 120 } else if a == 98 { 106 } else if a == 99 { 100 } else if a == 100 { 78 } else if a == 101 { 64 } else
    if a == 102 { 82 } else if a == 103 { 92 } else if a == 104 { 6 } else if a == 105 { 8 } else if a == 106 { 26 } else if a == 107 { 20 } else
    if a == 108 { 62 } else if a == 109 { 48 } else if a == 110 { 34 } else if a == 111 { 44 } else if a == 112 { 150 } else if a == 113 { 152 } else
    if a == 114 { 138 } else if a == 115 { 132 } else if a == 116 { 174 } else if a == 117 { 160 } else if a == 118 { 178 } else if a == 119 { 188 } else
    if a == 120 { 230 } else if a == 121 { 232 } else if a == 122 { 250 } else if a == 123 { 244 } else if a == 124 { 222 } else if a == 125 { 208 } else
    if a == 126 { 194 } else if a == 127 { 204 } else if a == 128 { 65 } else if a == 129 { 79 } else if a == 130 { 93 } else if a == 131 { 83 } else
    if a == 132 { 121 } else if a == 133 { 119 } else if a == 134 { 101 } else if a == 135 { 107 } else if a == 136 { 49 } else if a == 137 { 63 } else
    if a == 138 { 45 } else if a == 139 { 35 } else if a == 140 { 9 } else if a == 141 { 7 } else if a == 142 { 21 } else if a == 143 { 27 } else
    if a == 144 { 161 } else if a == 145 { 175 } else if a == 146 { 189 } else if a == 147 { 179 } else if a == 148 { 153 } else if a == 149 { 151 } else
    if a == 150 { 133 } else if a == 151 { 139 } else if a == 152 { 209 } else if a == 153 { 223 } else if a == 154 { 205 } else if a == 155 { 195 } else
    if a == 156 { 233 } else if a == 157 { 231 } else if a == 158 { 245 } else if a == 159 { 251 } else if a == 160 { 154 } else if a == 161 { 148 } else
    if a == 162 { 134 } else if a == 163 { 136 } else if a == 164 { 162 } else if a == 165 { 172 } else if a == 166 { 190 } else if a == 167 { 176 } else
    if a == 168 { 234 } else if a == 169 { 228 } else if a == 170 { 246 } else if a == 171 { 248 } else if a == 172 { 210 } else if a == 173 { 220 } else
    if a == 174 { 206 } else if a == 175 { 192 } else if a == 176 { 122 } else if a == 177 { 116 } else if a == 178 { 102 } else if a == 179 { 104 } else
    if a == 180 { 66 } else if a == 181 { 76 } else if a == 182 { 94 } else if a == 183 { 80 } else if a == 184 { 10 } else if a == 185 { 4 } else
    if a == 186 { 22 } else if a == 187 { 24 } else if a == 188 { 50 } else if a == 189 { 60 } else if a == 190 { 46 } else if a == 191 { 32 } else
    if a == 192 { 236 } else if a == 193 { 226 } else if a == 194 { 240 } else if a == 195 { 254 } else if a == 196 { 212 } else if a == 197 { 218 } else
    if a == 198 { 200 } else if a == 199 { 198 } else if a == 200 { 156 } else if a == 201 { 146 } else if a == 202 { 128 } else if a == 203 { 142 } else
    if a == 204 { 164 } else if a == 205 { 170 } else if a == 206 { 184 } else if a == 207 { 182 } else if a == 208 { 12 } else if a == 209 { 2 } else
    if a == 210 { 16 } else if a == 211 { 30 } else if a == 212 { 52 } else if a == 213 { 58 } else if a == 214 { 40 } else if a == 215 { 38 } else
    if a == 216 { 124 } else if a == 217 { 114 } else if a == 218 { 96 } else if a == 219 { 110 } else if a == 220 { 68 } else if a == 221 { 74 } else
    if a == 222 { 88 } else if a == 223 { 86 } else if a == 224 { 55 } else if a == 225 { 57 } else if a == 226 { 43 } else if a == 227 { 37 } else
    if a == 228 { 15 } else if a == 229 { 1 } else if a == 230 { 19 } else if a == 231 { 29 } else if a == 232 { 71 } else if a == 233 { 73 } else
    if a == 234 { 91 } else if a == 235 { 85 } else if a == 236 { 127 } else if a == 237 { 113 } else if a == 238 { 99 } else if a == 239 { 109 } else
    if a == 240 { 215 } else if a == 241 { 217 } else if a == 242 { 203 } else if a == 243 { 197 } else if a == 244 { 239 } else if a == 245 { 225 } else
    if a == 246 { 243 } else if a == 247 { 253 } else if a == 248 { 167 } else if a == 249 { 169 } else if a == 250 { 187 } else if a == 251 { 181 } else
    if a == 252 { 159 } else if a == 253 { 145 } else if a == 254 { 131 } else
    { 141 }
}

/// The table products by 14, byte by byte.
#[verifier::rlimit(100)]
proof fn lemma_table_values_14()
    ensures
        forall|a: u8| #[trigger] gf_mul_spec(a, 14u8) == products_14(a),
{
    reveal(gf_mul_spec);
    lemma_log_bound();
    assert(LOG_TABLE[14] == 223);
    assert forall|a: u8| #![trigger gf_mul_spec(a, 14u8)] true implies gf_mul_spec(a, 14u8) == products_14(a) by {
        lemma_log_sum(LOG_TABLE[a as int] as int, 223);
    }
    assert(forall|a: int| 0 <= a < 256 ==> EXP_TABLE[if LOG_TABLE[a] + 223 < 255 { LOG_TABLE[a] + 223 } else { LOG_TABLE[a] + 223 - 255 }] == #[trigger] products_14(a as u8));
}

/// The field products by 14 of the nonzero bytes, byte by byte.
#[verifier::rlimit(100)]
proof fn lemma_field_values_14()
    by (bit_vector)
    ensures
        forall|a: u8| a != 0 ==> #[trigger] gf_mul_by(a, 14u8) == products_14(a),
{
}

/// For a nonzero `a`, the table product by 14 is the field product.
pub proof fn lemma_table_product_14()
    ensures
        forall|a: u8| a != 0 ==> #[trigger] gf_mul_spec(a, 14u8) == gf_mul_by(a, 14u8),
{
    lemma_table_values_14();
    lemma_field_values_14();
}

/// InvMixColumns undoes MixColumns on one column, with the products taken in the field:
/// `y` is the column that MixColumns makes of `x`.
pub proof fn lemma_column_inverse(x0: u8, x1: u8, x2: u8, x3: u8, y0: u8, y1: u8, y2: u8, y3: u8)
    by (bit_vector)
    requires
        y0 == gf_mul_by(x0, 2u8) ^ gf_mul_by(x3, 1u8) ^ gf_mul_by(x2, 1u8) ^ gf_mul_by(x1, 3u8),
        y1 == gf_mul_by(x1, 2u8) ^ gf_mul_by(x0, 1u8) ^ gf_mul_by(x3, 1u8) ^ gf_mul_by(x2, 3u8),
        y2 == gf_mul_by(x2, 2u8) ^ gf_mul_by(x1, 1u8) ^ gf_mul_by(x0, 1u8) ^ gf_mul_by(x3, 3u8),
        y3 == gf_mul_by(x3, 2u8) ^ gf_mul_by(x2, 1u8) ^ gf_mul_by(x1, 1u8) ^ gf_mul_by(x0, 3u8),
    ensures
        x0 == gf_mul_by(y0, 14u8) ^ gf_mul_by(y3, 9u8) ^ gf_mul_by(y2, 13u8) ^ gf_mul_by(y1, 11u8),
        x1 == gf_mul_by(y1, 14u8) ^ gf_mul_by(y0, 9u8) ^ gf_mul_by(y3, 13u8) ^ gf_mul_by(y2, 11u8),
        x2 == gf_mul_by(y2, 14u8) ^ gf_mul_by(y1, 9u8) ^ gf_mul_by(y0, 13u8) ^ gf_mul_by(y3, 11u8),
        x3 == gf_mul_by(y3, 14u8) ^ gf_mul_by(y2, 9u8) ^ gf_mul_by(y1, 13u8) ^ gf_mul_by(y0, 11u8),
{
}


/// MixColumns undoes InvMixColumns on one column, with the products taken in the field:
/// `y` is the column that InvMixColumns makes of `x`.
pub proof fn lemma_column_inverse_rev(x0: u8, x1: u8, x2: u8, x3: u8, y0: u8, y1: u8, y2: u8, y3: u8)
    by (bit_vector)
    requires
        y0 == gf_mul_by(x0, 14u8) ^ gf_mul_by(x3, 9u8) ^ gf_mul_by(x2, 13u8) ^ gf_mul_by(x1, 11u8),
        y1 == gf_mul_by(x1, 14u8) ^ gf_mul_by(x0, 9u8) ^ gf_mul_by(x3, 13u8) ^ gf_mul_by(x2, 11u8),
        y2 == gf_mul_by(x2, 14u8) ^ gf_mul_by(x1, 9u8) ^ gf_mul_by(x0, 13u8) ^ gf_mul_by(x3, 11u8),
        y3 == gf_mul_by(x3, 14u8) ^ gf_mul_by(x2, 9u8) ^ gf_mul_by(x1, 13u8) ^ gf_mul_by(x0, 11u8),
    ensures
        x0 == gf_mul_by(y0, 2u8) ^ gf_mul_by(y3, 1u8) ^ gf_mul_by(y2, 1u8) ^ gf_mul_by(y1, 3u8),
        x1 == gf_mul_by(y1, 2u8) ^ gf_mul_by(y0, 1u8) ^ gf_mul_by(y3, 1u8) ^ gf_mul_by(y2, 3u8),
        x2 == gf_mul_by(y2, 2u8) ^ gf_mul_by(y1, 1u8) ^ gf_mul_by(y0, 1u8) ^ gf_mul_by(y3, 3u8),
        x3 == gf_mul_by(y3, 2u8) ^ gf_mul_by(y2, 1u8) ^ gf_mul_by(y1, 1u8) ^ gf_mul_by(y0, 3u8),
{
}

/// `a` times x^`k` in GF(2^8).
pub open spec fn xtime_pow(a: u8, k: nat) -> u8
    decreases k,
{
    if k == 0 {
        a
    } else {
        xtime(xtime_pow(a, (k - 1) as nat))
    }
}

/// The product in GF(2^8) of `a` and the `n` lowest bits of `b`: the XOR of `a` times
/// x^`k` over the bits `k` of `b` below `n` that are 1.
pub open spec fn field_mul_bits(a: u8, b: u8, n: nat) -> u8
    decreases n,
{
    if n == 0 {
        0
    } else {
        let k = (n - 1) as nat;
        if (b >> (k as u8)) & 1 == 1 {
            field_mul_bits(a, b, k) ^ xtime_pow(a, k)
        } else {
            field_mul_bits(a, b, k)
        }
    }
}

/// The product of `a` and `b` in GF(2^8) modulo x^8 + x^4 + x^3 + x + 1.
pub open spec fn field_mul(a: u8, b: u8) -> u8 {
    field_mul_bits(a, b, 8)
}

/// Multiplies `a` and `b` in GF(2^8), bit by bit of `b` (0 times anything is 0).
pub fn field_multiply(a: u8, b: u8) -> (r: u8)
    ensures
        r == field_mul(a, b),
{
    let mut p: u8 = 0;
    let mut x: u8 = a;
    for k in 0..8u8
        invariant
            x == xtime_pow(a, k as nat),
            p == field_mul_bits(a, b, k as nat),
    {
        if (b >> k) & 1 == 1 {
            p = p ^ x;
        }
        let h = x >> 7u8;
        x = (x << 1u8) ^ (h | (h << 1u8) | (h << 3u8) | (h << 4u8));
    }
    p
}


} // verus!
