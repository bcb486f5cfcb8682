//! Fixed-width integer and fixed-point decimal arithmetic with checked
//! operations, plus the byte-level key encoding used by the storage layer.

mod account;
mod arith;
mod byte_laws;
mod code_status;
mod bytes;
mod bytes_wide;
mod conv_wide;
mod dec;
mod dec_wide;
mod dec_wide_conv;
mod encoding;
mod decimal;
mod display;
mod fixed_point;
mod fraction;
mod fraction_wide;
mod error;
mod integer;
mod integer_wide;
mod is_zero;
mod key_laws;
mod key_wide;
mod laws;
mod ledger;
mod multiply_ratio;
mod multiply_ratio_wide;
mod next;
mod int_types;
mod int_wide;
mod number;
mod number_const;
mod number512;
mod number_text;
mod order_int;
mod order_wide;
mod parse;
mod prev;
mod prim;
mod primary_key;
mod sign;
mod signed;
mod storage;
mod text_laws;
mod text_wide;
mod wide;
mod wide512;
mod wide512_ops;

pub use account::{check_sequence, prehash_sign_data, verifies_signature, AuthMode, SequenceError};
pub use arith::{abs, ceil_div, clamp, floor_div, ilog, is_isqrt, pow, pow10, tdiv, trem, wrap};
pub use code_status::{law_code_status_key_roundtrip, law_code_status_refuses_unknown_tags, law_duration_key_roundtrip, CodeStatus, Duration};
pub use bytes_wide::law_wide_bytes_twos_complement;
pub use byte_laws::{holds_bits, law_bytes_roundtrip, law_sign_extension, law_signed_bytes_twos_complement, law_unsigned_bytes_plain, law_zero_extension};
pub use bytes::{extension_byte, fill, grow_be_int, grow_be_uint, grow_le_int, grow_le_uint, grown_be, grown_le, reversed, twos, Bytable};
pub use display::{dec_display, digit_char, digit_chars, fixed_digit_values, fixed_digits, int_text_of, int_to_text, nat_text, nat_to_text, trim_zero_values, trim_zeros};
pub use dec_wide::{Dec256, Udec256};
pub use dec::{Dec, Dec128, Udec128, Udec128_24, Udec128_6, dec_mul, dec_pow, dec_pow_failure, dec_pow_loop, dec_pow_loop_failure, dec_sqrt_scale, pow10_i128, pow10_u128};
pub use decimal::Decimal;
pub use fixed_point::FixedPoint;
pub use fraction::{Fraction, MultiplyFraction};
pub use encoding::{all_fit, encode_length, extend_bytes, extend_prefixed, fits_len, join_prefixed, joinable, joined, len_prefixed, length_bytes, namespaced_key, nested_namespaces_with_key, split_first_key, split_spec, views};
pub use error::{math_error_message, MathError, MathResult, NumberText};
pub use int_wide::{Int512, Uint512};
pub use int_types::{Int, Int128, Int256, Int64, Uint128, Uint256, Uint64};
pub use number::Number;
pub use integer::Integer;
pub use is_zero::IsZero;
pub use number_const::NumberConst;
pub use parse::{all_digits, dec_text, digits_num, find, find_byte, int_text, int_text_value, is_digit, parse_dec, parse_digits, parse_int, parse_udec, parse_uint, ParseFailure};
pub use primary_key::{be_bytes, be_bytes_of, be_value, be_value_of, byte_range, lemma_be_bytes_of_value, lemma_be_roundtrip, lemma_be_value_bound, lemma_byte_range, lemma_byte_range_monotone, Prefixer, PrimaryKey, StdError, StdResult};
pub use sign::Sign;
pub use signed::{Signed, Unsigned};
pub use text_laws::{ascii_bytes, digits_value_of, law_dec_text_roundtrip, law_int_text_roundtrip, law_udec_text_roundtrip};
pub use order_int::{law_dec_order_follows_values, law_int_order_follows_values};
pub use storage::{Borsh, Item, Path, Prefix, RawBound, StorageMap, StorageSet, WithEncodingSchema};
pub use wide512::{b256, fits_i512, fits_u512, i512_div_defined, I512, U512};
pub use wide::{digits_value, i256_div_defined, fits_i256, fits_u256, i256_max, i256_min, u256_max, u256_min, I256, U256};
pub use key_wide::{law_dec256_key_order, law_udec256_key_order, law_i256_key_order, law_i256_key_roundtrip, law_i512_key_order, law_i512_key_roundtrip, law_u256_key_order, law_u256_key_roundtrip, law_u512_key_order, law_u512_key_roundtrip, offset_256, offset_512};
pub use key_laws::{law_length_prefix_big_endian, law_prefix_covers_path, law_i128_key_order, law_i128_key_roundtrip, law_dec128_key_order, law_udec128_key_order, law_i16_key_order, law_i16_key_roundtrip, law_i32_key_order, law_i32_key_roundtrip, law_i64_key_order, law_i64_key_roundtrip, law_i8_key_order, law_i8_key_roundtrip, law_integer_key_order, law_split_joined, law_u128_key_roundtrip, law_u16_key_roundtrip, law_u32_key_roundtrip, law_u64_key_roundtrip, law_u128_key_order, law_u16_key_order, law_u32_key_order, law_u64_key_order, law_u8_key_order, law_u8_key_roundtrip, lex_lt};
pub use laws::{law_dec128_precision_roundtrip, law_dec256_precision_roundtrip, law_dec_pow_steps, law_floor_ceil_bracket, law_into_int_roundtrip, law_rounding_order, law_scale_roundtrip, law_udec128_precision_roundtrip, law_udec256_precision_roundtrip};
pub use ledger::{accumulated_supply, decreased_amount, fee_for, fee_settlement, fee_to_withhold, fee_transfers, increased_amount, law_fee_rounds_up, law_fee_settles_withheld, law_transfer_conserves, stored_amount, stores};
pub use multiply_ratio::MultiplyRatio;
pub use next::NextNumber;
pub use prev::PrevNumber;
