# grug

Checked fixed-width integer and fixed-point decimal arithmetic, and the
byte-level key encoding of a key-value storage layer, written in Verus.
Every function has a contract; all are proved except those of the small
trusted wrappers around the standard library's and `bnum`'s operations,
which Verus takes on trust.

## Layout

- `src/arith.rs`: the mathematical definitions the contracts speak of
  (truncating, floored and ceiled division, powers, logarithms, square
  roots) and the lemmas about them.
- `src/int_types.rs`, `src/wide.rs`, `src/wide512.rs`, `src/prim.rs`: the
  integer type `Int<U>` over 64- and 128-bit primitives, 256-bit integers
  held as four 64-bit digits and 512-bit integers held as two 256-bit
  halves; `prim.rs`, `wide.rs`, `wide512.rs`, `wide512_ops.rs` and
  `integer_wide.rs` hold the trusted wrappers around the standard library's
  and `bnum`'s integer operations.
- `src/number.rs`, `number512.rs`, `integer.rs`, `integer_wide.rs`,
  `sign.rs`, `is_zero.rs`, `number_const.rs`, `next.rs`, `prev.rs`,
  `signed.rs`, `conv_wide.rs`, `multiply_ratio.rs`, `multiply_ratio_wide.rs`,
  `int_wide.rs`, `order_int.rs`, `order_wide.rs`: the number traits and
  their implementations for every width, and the order of the numbers.
- `src/error.rs`, `number_text.rs`: the arithmetic errors, their messages,
  and the decimal text of every number that an error carries.
- `src/dec.rs`, `dec_wide.rs`, `dec_wide_conv.rs`, `fixed_point.rs`,
  `decimal.rs`, `fraction.rs`, `fraction_wide.rs`, `parse.rs`, `display.rs`,
  `text_wide.rs`: the decimal type `Dec<U, S>` over 128- and 256-bit
  integers, its conversions, its text form in both directions, and
  multiplication of integers by decimals.
- `src/bytes.rs`, `bytes_wide.rs`: numbers to and from raw bytes, and
  widening of bytes.
- `src/encoding.rs`, `primary_key.rs`, `key_wide.rs`, `code_status.rs`,
  `storage.rs`: length-prefixed namespaces, the `PrimaryKey` encoding of
  simple and compound keys, and the storage handles (`StorageMap`,
  `StorageSet`, `Item`, `Path`, `Prefix`) that compute storage keys.
- `src/ledger.rs`, `account.rs`: the balance and fee rules of the bank and
  fee contracts, and the sequence and signing rules of the account.
- `src/laws.rs`, `key_laws.rs`, `byte_laws.rs`, `text_laws.rs`: properties
  that relate several functions, proved once for all inputs.
- `app/`: serde support, where each number travels as its decimal text.
