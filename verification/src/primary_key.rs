use vstd::prelude::*;
use crate::dec::Dec;
use crate::display::{nat_text, nat_to_text};
use crate::encoding::{all_fit, joinable, joined, join_prefixed, nested_namespaces_with_key, split_first_key, split_spec, views};
use crate::int_types::Int;
use vstd::string::StringExecFns;
use vstd::utf8::{decode_utf8, encode_utf8, valid_utf8};

verus! {

/// Errors from reading a storage key back.
#[derive(Clone, Debug, PartialEq, Eq)]
pub enum StdError {
    /// The bytes are no valid encoding of the expected value.
    Deserialize { what: String, reason: String },
}

impl StdError {
    pub fn deserialize(what: &str, reason: String) -> (r: Self)
        ensures
            r matches StdError::Deserialize { what: w, reason: re } && w@ == what@ && re == reason,
    {
        StdError::Deserialize { what: what.to_owned(), reason }
    }
}

pub type StdResult<T> = Result<T, StdError>;

/// `e` is the error for an unreadable key, with the reason `reason`.
pub open spec fn key_error(e: StdError, reason: Seq<char>) -> bool {
    e matches StdError::Deserialize { what: w, reason: re } && w@ == "key"@ && re@ == reason
}

/// `x` as `n` bytes, most significant first; higher bytes are dropped.
pub open spec fn be_bytes(x: int, n: nat) -> Seq<u8>
    decreases n,
{
    if n == 0 {
        Seq::empty()
    } else {
        be_bytes(x / 256, (n - 1) as nat).push((x % 256) as u8)
    }
}

/// The number that the bytes `b` spell, most significant first.
pub open spec fn be_value(b: Seq<u8>) -> int
    decreases b.len(),
{
    if b.len() == 0 {
        0
    } else {
        be_value(b.drop_last()) * 256 + b.last()
    }
}

/// `256^n`.
pub open spec fn byte_range(n: nat) -> int
    decreases n,
{
    if n == 0 { 1 } else { 256 * byte_range((n - 1) as nat) }
}

pub proof fn lemma_byte_range(n: nat)
    ensures
        byte_range(n) >= 1,
        n == 1 ==> byte_range(n) == 0x100,
        n == 2 ==> byte_range(n) == 0x1_0000,
        n == 4 ==> byte_range(n) == 0x1_0000_0000,
        n == 8 ==> byte_range(n) == 0x1_0000_0000_0000_0000,
        n == 16 ==> byte_range(n) == 0x1_0000_0000_0000_0000_0000_0000_0000_0000,
    decreases n,
{
    reveal_with_fuel(byte_range, 17);
    if n > 0 {
        lemma_byte_range((n - 1) as nat);
    }
}

/// Spelled bytes stay below `256` to their count.
pub proof fn lemma_be_value_bound(b: Seq<u8>)
    ensures
        0 <= be_value(b) < byte_range(b.len()),
    decreases b.len(),
{
    if b.len() > 0 {
        lemma_be_value_bound(b.drop_last());
        assert(be_value(b.drop_last()) * 256 + b.last() < byte_range(b.len())) by (nonlinear_arith)
            requires
                be_value(b.drop_last()) < byte_range(b.drop_last().len()),
                byte_range(b.len()) == 256 * byte_range(b.drop_last().len()),
                0 <= b.last() < 256,
        ;
    }
}

/// Reading back the bytes of a number in range gives the number, and the
/// bytes of what bytes spell are those bytes.
pub proof fn lemma_be_roundtrip(x: int, n: nat)
    requires
        0 <= x < byte_range(n),
    ensures
        be_bytes(x, n).len() == n,
        be_value(be_bytes(x, n)) == x,
    decreases n,
{
    if n > 0 {
        assert(0 <= x / 256 < byte_range((n - 1) as nat)) by (nonlinear_arith)
            requires 0 <= x < byte_range(n), byte_range(n) == 256 * byte_range((n - 1) as nat);
        lemma_be_roundtrip(x / 256, (n - 1) as nat);
        assert(be_bytes(x, n).drop_last() =~= be_bytes(x / 256, (n - 1) as nat));
    }
}

pub proof fn lemma_be_bytes_of_value(b: Seq<u8>)
    ensures
        be_bytes(be_value(b), b.len()) == b,
    decreases b.len(),
{
    if b.len() > 0 {
        lemma_be_value_bound(b.drop_last());
        lemma_be_bytes_of_value(b.drop_last());
        let v = be_value(b);
        assert(v / 256 == be_value(b.drop_last()) && v % 256 == b.last()) by (nonlinear_arith)
            requires v == be_value(b.drop_last()) * 256 + b.last(), 0 <= b.last() < 256;
        assert(be_bytes(v, b.len()) =~= b);
    }
}

/// `x` as `n` bytes, most significant first.
pub fn be_bytes_of(x: u128, n: usize) -> (r: Vec<u8>)
    ensures
        r@ == be_bytes(x as int, n as nat),
    decreases n,
{
    if n == 0 {
        Vec::new()
    } else {
        let mut v = be_bytes_of(x / 256, n - 1);
        v.push((x % 256) as u8);
        v
    }
}

/// The number that at most sixteen bytes spell, most significant first.
pub fn be_value_of(b: &[u8]) -> (r: u128)
    requires
        b@.len() <= 16,
    ensures
        r == be_value(b@),
{
    let mut acc: u128 = 0;
    let mut i: usize = 0;
    proof {
        assert(b@.subrange(0, 0) =~= Seq::<u8>::empty());
    }
    while i < b.len()
        invariant
            i <= b@.len() <= 16,
            acc == be_value(b@.subrange(0, i as int)),
        decreases b@.len() - i,
    {
        proof {
            lemma_be_value_bound(b@.subrange(0, i as int));
            lemma_byte_range(16);
            lemma_byte_range_monotone(i as nat, 15);
            assert(b@.subrange(0, i + 1).drop_last() =~= b@.subrange(0, i as int));
            assert(acc * 256 + b[i as int] < byte_range(16)) by (nonlinear_arith)
                requires
                    acc < byte_range(i as nat),
                    byte_range(i as nat) <= byte_range(15),
                    byte_range(16) == 256 * byte_range(15),
                    b[i as int] < 256,
            ;
        }
        acc = acc * 256 + b[i] as u128;
        i = i + 1;
    }
    proof {
        assert(b@.subrange(0, b@.len() as int) =~= b@);
    }
    acc
}

pub proof fn lemma_byte_range_monotone(a: nat, b: nat)
    requires
        a <= b,
    ensures
        byte_range(a) <= byte_range(b),
    decreases b,
{
    if a < b {
        lemma_byte_range_monotone(a, (b - 1) as nat);
        lemma_byte_range((b - 1) as nat);
    }
}

/// The text of a byte count for error reasons.
fn count_text(n: usize) -> (r: String)
    ensures
        r@ == nat_text(n as int),
{
    nat_to_text(n as u128)
}

/// The text of the reason given when a fixed-size key has the wrong length.
pub open spec fn wrong_length_text(expected: int, got: int) -> Seq<char> {
    "wrong number of bytes: expecting "@ + nat_text(expected) + ", got "@ + nat_text(got)
}

/// The reason given when a fixed-size key has the wrong length.
pub(crate) fn wrong_length(expected: usize, got: usize) -> (r: String)
    ensures
        r@ == wrong_length_text(expected as int, got as int),
{
    "wrong number of bytes: expecting ".to_owned().concat(count_text(expected).as_str()).concat(", got ").concat(
        count_text(got).as_str(),
    )
}

/// The bytes in decimal, one after another, separated by a comma and a
/// space.
pub open spec fn byte_items_text(b: Seq<u8>) -> Seq<char>
    decreases b.len(),
{
    if b.len() == 0 {
        Seq::empty()
    } else if b.len() == 1 {
        nat_text(b[0] as int)
    } else {
        byte_items_text(b.drop_last()) + seq![',', ' '] + nat_text(b.last() as int)
    }
}

/// The bytes written as a list in square brackets, such as `[1, 2]`.
pub open spec fn bytes_list_text(b: Seq<u8>) -> Seq<char> {
    seq!['['] + byte_items_text(b) + seq![']']
}

/// The bytes written as a list, such as `[1, 2]`.
pub(crate) fn bytes_text(b: &[u8]) -> (r: String)
    ensures
        r@ == bytes_list_text(b@),
{
    proof {
        reveal_strlit("[");
        reveal_strlit(", ");
        reveal_strlit("]");
        assert(b@.subrange(0, 0) =~= Seq::<u8>::empty());
    }
    let mut out = "[".to_owned();
    let mut i: usize = 0;
    while i < b.len()
        invariant
            i <= b@.len(),
            out@ == seq!['['] + byte_items_text(b@.subrange(0, i as int)),
            ", "@ == seq![',', ' '],
        decreases b@.len() - i,
    {
        proof {
            assert(b@.subrange(0, i + 1).drop_last() =~= b@.subrange(0, i as int));
        }
        if i > 0 {
            out = out.concat(", ");
        }
        out = out.concat(nat_to_text(b[i] as u128).as_str());
        proof {
            assert(out@ =~= seq!['['] + byte_items_text(b@.subrange(0, i + 1)));
        }
        i = i + 1;
    }
    proof {
        assert(b@.subrange(0, b@.len() as int) =~= b@);
    }
    out.concat("]")
}

/// `String::from_utf8`: the bytes as text when they are valid UTF-8, else the
/// text of the error it reports.
#[verifier::external_body]
fn string_from_utf8(bytes: Vec<u8>) -> (r: Result<String, String>)
    ensures
        r is Ok <==> valid_utf8(bytes@),
        r matches Ok(s) ==> s@ == decode_utf8(bytes@),
{
    String::from_utf8(bytes).map_err(|err| err.to_string())
}

/// Describes a key of a mapping: how it turns into raw byte strings and how
/// it is read back.
pub trait PrimaryKey: Sized {
    /// For compound keys, the first element; `()` for simple keys.
    type Prefix: Prefixer;

    /// For compound keys, the elements after the prefix; `()` for simple
    /// keys.
    type Suffix;

    /// The type that the raw bytes read back into.
    type Output;

    /// The raw keys this key turns into.
    spec fn spec_raw_keys(&self) -> Seq<Seq<u8>>;

    /// The number of elements of the key.
    spec fn spec_key_elems() -> nat;

    /// The bytes can be read without running off their end.
    spec fn spec_decodable(bytes: Seq<u8>) -> bool;

    /// The bytes are a valid encoding.
    spec fn spec_decodes(bytes: Seq<u8>) -> bool;

    /// `out` is what the bytes read back into.
    spec fn spec_decoded(bytes: Seq<u8>, out: Self::Output) -> bool;

    /// The number of elements of the key.
    #[allow(non_snake_case)]
    fn KEY_ELEMS() -> (r: u8)
        requires
            Self::spec_key_elems() <= 255,
        ensures
            r == Self::spec_key_elems(),
    ;

    /// The raw keys, one byte string per element.
    fn raw_keys(&self) -> (r: Vec<Vec<u8>>)
        ensures
            views(r@) == self.spec_raw_keys(),
    ;

    /// The raw keys joined: each but the last preceded by its length as two
    /// big-endian bytes.
    fn joined_key(&self) -> (r: Vec<u8>)
        requires
            joinable(self.spec_raw_keys()),
        ensures
            r@ == joined(self.spec_raw_keys()),
    {
        let mut raw_keys = self.raw_keys();
        let ghost keys = views(raw_keys@);
        match raw_keys.pop() {
            Some(last) => {
                proof {
                    assert(views(raw_keys@) =~= keys.drop_last());
                }
                let r = nested_namespaces_with_key(None, raw_keys.as_slice(), Some(last.as_slice()));
                proof {
                    assert(r@ =~= joined(keys));
                }
                r
            },
            None => {
                proof {
                    assert(keys =~= Seq::<Seq<u8>>::empty());
                    assert(views(raw_keys@) =~= keys);
                }
                let r = nested_namespaces_with_key(None, raw_keys.as_slice(), None);
                proof {
                    assert(r@ =~= joined(keys));
                }
                r
            },
        }
    }

    /// Reads the bytes back.
    fn from_slice(bytes: &[u8]) -> (r: StdResult<Self::Output>)
        requires
            Self::spec_decodable(bytes@),
        ensures
            r is Ok <==> Self::spec_decodes(bytes@),
            r matches Ok(v) ==> Self::spec_decoded(bytes@, v),
    ;
}

/// Describes a prefix of a compound key.
///
/// Unlike the joined key, the joined prefix precedes every raw key with its
/// length, the last one included.
pub trait Prefixer {
    spec fn spec_raw_prefixes(&self) -> Seq<Seq<u8>>;

    fn raw_prefixes(&self) -> (r: Vec<Vec<u8>>)
        ensures
            views(r@) == self.spec_raw_prefixes(),
    ;

    fn joined_prefix(&self) -> (r: Vec<u8>)
        requires
            all_fit(self.spec_raw_prefixes()),
        ensures
            r@ == join_prefixed(self.spec_raw_prefixes()),
    {
        let raw_prefixes = self.raw_prefixes();
        let r = nested_namespaces_with_key(None, raw_prefixes.as_slice(), None);
        proof {
            assert(r@ =~= join_prefixed(self.spec_raw_prefixes()));
        }
        r
    }
}

impl<T: PrimaryKey> Prefixer for T {
    open spec fn spec_raw_prefixes(&self) -> Seq<Seq<u8>> {
        self.spec_raw_keys()
    }

    fn raw_prefixes(&self) -> (r: Vec<Vec<u8>>) {
        self.raw_keys()
    }
}

impl PrimaryKey for () {
    type Prefix = ();
    type Suffix = ();
    type Output = ();

    open spec fn spec_raw_keys(&self) -> Seq<Seq<u8>> {
        Seq::empty()
    }

    open spec fn spec_key_elems() -> nat {
        1
    }

    open spec fn spec_decodable(bytes: Seq<u8>) -> bool {
        true
    }

    open spec fn spec_decodes(bytes: Seq<u8>) -> bool {
        bytes.len() == 0
    }

    open spec fn spec_decoded(bytes: Seq<u8>, out: ()) -> bool {
        true
    }

    fn KEY_ELEMS() -> (r: u8) {
        1
    }

    fn raw_keys(&self) -> (r: Vec<Vec<u8>>) {
        let r: Vec<Vec<u8>> = Vec::new();
        proof {
            assert(views(r@) =~= Seq::<Seq<u8>>::empty());
        }
        r
    }

    fn from_slice(bytes: &[u8]) -> (r: StdResult<()>)
        ensures
            r matches Err(e) ==> key_error(e, "expecting empty bytes"@),
    {
        if bytes.len() != 0 {
            return Err(StdError::deserialize("key", "expecting empty bytes".to_owned()));
        }
        Ok(())
    }
}

impl PrimaryKey for bool {
    type Prefix = ();
    type Suffix = ();
    type Output = bool;

    open spec fn spec_raw_keys(&self) -> Seq<Seq<u8>> {
        seq![seq![if *self { 1u8 } else { 0u8 }]]
    }

    open spec fn spec_key_elems() -> nat {
        1
    }

    open spec fn spec_decodable(bytes: Seq<u8>) -> bool {
        true
    }

    open spec fn spec_decodes(bytes: Seq<u8>) -> bool {
        bytes == seq![0u8] || bytes == seq![1u8]
    }

    open spec fn spec_decoded(bytes: Seq<u8>, out: bool) -> bool {
        out == (bytes == seq![1u8])
    }

    fn KEY_ELEMS() -> (r: u8) {
        1
    }

    fn raw_keys(&self) -> (r: Vec<Vec<u8>>) {
        let b: u8 = if *self { 1 } else { 0 };
        let r = vec![vec![b]];
        proof {
            assert(r@[0]@ =~= seq![b]);
            assert(views(r@) =~= self.spec_raw_keys());
        }
        r
    }

    fn from_slice(bytes: &[u8]) -> (r: StdResult<bool>)
        ensures
            r matches Err(e) ==> key_error(
                e,
                "unknown bytes `"@ + bytes_list_text(bytes@) + "` for boolean key, expecting 0 or 1"@,
            ),
    {
        if bytes.len() == 1 && bytes[0] == 0 {
            proof {
                assert(bytes@ =~= seq![0u8]);
            }
            Ok(false)
        } else if bytes.len() == 1 && bytes[0] == 1 {
            proof {
                assert(bytes@ =~= seq![1u8]);
            }
            Ok(true)
        } else {
            proof {
                assert(bytes@ != seq![0u8] && bytes@ != seq![1u8]) by {
                    if bytes@ == seq![0u8] || bytes@ == seq![1u8] {
                        assert(bytes@.len() == 1 && bytes@[0] == bytes[0]);
                    }
                }
            }
            Err(StdError::deserialize(
                "key",
                "unknown bytes `".to_owned().concat(bytes_text(bytes).as_str()).concat("` for boolean key, expecting 0 or 1"),
            ))
        }
    }
}

impl<'a> PrimaryKey for &'a [u8] {
    type Prefix = ();
    type Suffix = ();
    type Output = Vec<u8>;

    open spec fn spec_raw_keys(&self) -> Seq<Seq<u8>> {
        seq![self@]
    }

    open spec fn spec_key_elems() -> nat {
        1
    }

    open spec fn spec_decodable(bytes: Seq<u8>) -> bool {
        true
    }

    open spec fn spec_decodes(bytes: Seq<u8>) -> bool {
        true
    }

    open spec fn spec_decoded(bytes: Seq<u8>, out: Vec<u8>) -> bool {
        out@ == bytes
    }

    fn KEY_ELEMS() -> (r: u8) {
        1
    }

    fn raw_keys(&self) -> (r: Vec<Vec<u8>>) {
        let r = vec![vstd::slice::slice_to_vec(self)];
        proof {
            assert(views(r@) =~= self.spec_raw_keys());
        }
        r
    }

    fn from_slice(bytes: &[u8]) -> (r: StdResult<Vec<u8>>) {
        Ok(vstd::slice::slice_to_vec(bytes))
    }
}

impl PrimaryKey for Vec<u8> {
    type Prefix = ();
    type Suffix = ();
    type Output = Vec<u8>;

    open spec fn spec_raw_keys(&self) -> Seq<Seq<u8>> {
        seq![self@]
    }

    open spec fn spec_key_elems() -> nat {
        1
    }

    open spec fn spec_decodable(bytes: Seq<u8>) -> bool {
        true
    }

    open spec fn spec_decodes(bytes: Seq<u8>) -> bool {
        true
    }

    open spec fn spec_decoded(bytes: Seq<u8>, out: Vec<u8>) -> bool {
        out@ == bytes
    }

    fn KEY_ELEMS() -> (r: u8) {
        1
    }

    fn raw_keys(&self) -> (r: Vec<Vec<u8>>) {
        let r = vec![vstd::slice::slice_to_vec(self.as_slice())];
        proof {
            assert(views(r@) =~= self.spec_raw_keys());
        }
        r
    }

    fn from_slice(bytes: &[u8]) -> (r: StdResult<Vec<u8>>) {
        Ok(vstd::slice::slice_to_vec(bytes))
    }
}

impl<'a> PrimaryKey for &'a str {
    type Prefix = ();
    type Suffix = ();
    type Output = String;

    open spec fn spec_raw_keys(&self) -> Seq<Seq<u8>> {
        seq![encode_utf8(self@)]
    }

    open spec fn spec_key_elems() -> nat {
        1
    }

    open spec fn spec_decodable(bytes: Seq<u8>) -> bool {
        true
    }

    open spec fn spec_decodes(bytes: Seq<u8>) -> bool {
        valid_utf8(bytes)
    }

    open spec fn spec_decoded(bytes: Seq<u8>, out: String) -> bool {
        out@ == decode_utf8(bytes)
    }

    fn KEY_ELEMS() -> (r: u8) {
        1
    }

    fn raw_keys(&self) -> (r: Vec<Vec<u8>>) {
        let r = vec![vstd::slice::slice_to_vec(self.as_bytes())];
        proof {
            assert(views(r@) =~= self.spec_raw_keys());
        }
        r
    }

    fn from_slice(bytes: &[u8]) -> (r: StdResult<String>) {
        match string_from_utf8(vstd::slice::slice_to_vec(bytes)) {
            Ok(text) => Ok(text),
            Err(reason) => Err(StdError::deserialize("key", reason)),
        }
    }
}

impl PrimaryKey for String {
    type Prefix = ();
    type Suffix = ();
    type Output = String;

    open spec fn spec_raw_keys(&self) -> Seq<Seq<u8>> {
        seq![encode_utf8(self@)]
    }

    open spec fn spec_key_elems() -> nat {
        1
    }

    open spec fn spec_decodable(bytes: Seq<u8>) -> bool {
        true
    }

    open spec fn spec_decodes(bytes: Seq<u8>) -> bool {
        valid_utf8(bytes)
    }

    open spec fn spec_decoded(bytes: Seq<u8>, out: String) -> bool {
        out@ == decode_utf8(bytes)
    }

    fn KEY_ELEMS() -> (r: u8) {
        1
    }

    fn raw_keys(&self) -> (r: Vec<Vec<u8>>) {
        let r = vec![vstd::slice::slice_to_vec(self.as_str().as_bytes())];
        proof {
            assert(views(r@) =~= self.spec_raw_keys());
        }
        r
    }

    fn from_slice(bytes: &[u8]) -> (r: StdResult<String>) {
        match string_from_utf8(vstd::slice::slice_to_vec(bytes)) {
            Ok(text) => Ok(text),
            Err(reason) => Err(StdError::deserialize("key", reason)),
        }
    }
}

impl PrimaryKey for u8 {
    type Prefix = ();
    type Suffix = ();
    type Output = u8;

    open spec fn spec_raw_keys(&self) -> Seq<Seq<u8>> {
        seq![be_bytes(*self as int, 1)]
    }

    open spec fn spec_key_elems() -> nat {
        1
    }

    open spec fn spec_decodable(bytes: Seq<u8>) -> bool {
        true
    }

    open spec fn spec_decodes(bytes: Seq<u8>) -> bool {
        bytes.len() == 1
    }

    open spec fn spec_decoded(bytes: Seq<u8>, out: u8) -> bool {
        out == be_value(bytes)
    }

    fn KEY_ELEMS() -> (r: u8) {
        1
    }

    fn raw_keys(&self) -> (r: Vec<Vec<u8>>) {
        let u: u128 = *self as u128;
        let r = vec![be_bytes_of(u, 1)];
        proof {
            assert(views(r@) =~= self.spec_raw_keys());
        }
        r
    }

    fn from_slice(bytes: &[u8]) -> (r: StdResult<u8>)
        ensures
            r matches Err(e) ==> key_error(e, wrong_length_text(1, bytes@.len() as int)),
    {
        if bytes.len() != 1 {
            return Err(StdError::deserialize("key", wrong_length(1, bytes.len())));
        }
        proof {
            lemma_be_value_bound(bytes@);
            lemma_byte_range(1);
        }
        let u = be_value_of(bytes);
        Ok(u as u8)
    }
}

impl PrimaryKey for u16 {
    type Prefix = ();
    type Suffix = ();
    type Output = u16;

    open spec fn spec_raw_keys(&self) -> Seq<Seq<u8>> {
        seq![be_bytes(*self as int, 2)]
    }

    open spec fn spec_key_elems() -> nat {
        1
    }

    open spec fn spec_decodable(bytes: Seq<u8>) -> bool {
        true
    }

    open spec fn spec_decodes(bytes: Seq<u8>) -> bool {
        bytes.len() == 2
    }

    open spec fn spec_decoded(bytes: Seq<u8>, out: u16) -> bool {
        out == be_value(bytes)
    }

    fn KEY_ELEMS() -> (r: u8) {
        1
    }

    fn raw_keys(&self) -> (r: Vec<Vec<u8>>) {
        let u: u128 = *self as u128;
        let r = vec![be_bytes_of(u, 2)];
        proof {
            assert(views(r@) =~= self.spec_raw_keys());
        }
        r
    }

    fn from_slice(bytes: &[u8]) -> (r: StdResult<u16>)
        ensures
            r matches Err(e) ==> key_error(e, wrong_length_text(2, bytes@.len() as int)),
    {
        if bytes.len() != 2 {
            return Err(StdError::deserialize("key", wrong_length(2, bytes.len())));
        }
        proof {
            lemma_be_value_bound(bytes@);
            lemma_byte_range(2);
        }
        let u = be_value_of(bytes);
        Ok(u as u16)
    }
}

impl PrimaryKey for u32 {
    type Prefix = ();
    type Suffix = ();
    type Output = u32;

    open spec fn spec_raw_keys(&self) -> Seq<Seq<u8>> {
        seq![be_bytes(*self as int, 4)]
    }

    open spec fn spec_key_elems() -> nat {
        1
    }

    open spec fn spec_decodable(bytes: Seq<u8>) -> bool {
        true
    }

    open spec fn spec_decodes(bytes: Seq<u8>) -> bool {
        bytes.len() == 4
    }

    open spec fn spec_decoded(bytes: Seq<u8>, out: u32) -> bool {
        out == be_value(bytes)
    }

    fn KEY_ELEMS() -> (r: u8) {
        1
    }

    fn raw_keys(&self) -> (r: Vec<Vec<u8>>) {
        let u: u128 = *self as u128;
        let r = vec![be_bytes_of(u, 4)];
        proof {
            assert(views(r@) =~= self.spec_raw_keys());
        }
        r
    }

    fn from_slice(bytes: &[u8]) -> (r: StdResult<u32>)
        ensures
            r matches Err(e) ==> key_error(e, wrong_length_text(4, bytes@.len() as int)),
    {
        if bytes.len() != 4 {
            return Err(StdError::deserialize("key", wrong_length(4, bytes.len())));
        }
        proof {
            lemma_be_value_bound(bytes@);
            lemma_byte_range(4);
        }
        let u = be_value_of(bytes);
        Ok(u as u32)
    }
}

impl PrimaryKey for u64 {
    type Prefix = ();
    type Suffix = ();
    type Output = u64;

    open spec fn spec_raw_keys(&self) -> Seq<Seq<u8>> {
        seq![be_bytes(*self as int, 8)]
    }

    open spec fn spec_key_elems() -> nat {
        1
    }

    open spec fn spec_decodable(bytes: Seq<u8>) -> bool {
        true
    }

    open spec fn spec_decodes(bytes: Seq<u8>) -> bool {
        bytes.len() == 8
    }

    open spec fn spec_decoded(bytes: Seq<u8>, out: u64) -> bool {
        out == be_value(bytes)
    }

    fn KEY_ELEMS() -> (r: u8) {
        1
    }

    fn raw_keys(&self) -> (r: Vec<Vec<u8>>) {
        let u: u128 = *self as u128;
        let r = vec![be_bytes_of(u, 8)];
        proof {
            assert(views(r@) =~= self.spec_raw_keys());
        }
        r
    }

    fn from_slice(bytes: &[u8]) -> (r: StdResult<u64>)
        ensures
            r matches Err(e) ==> key_error(e, wrong_length_text(8, bytes@.len() as int)),
    {
        if bytes.len() != 8 {
            return Err(StdError::deserialize("key", wrong_length(8, bytes.len())));
        }
        proof {
            lemma_be_value_bound(bytes@);
            lemma_byte_range(8);
        }
        let u = be_value_of(bytes);
        Ok(u as u64)
    }
}

impl PrimaryKey for u128 {
    type Prefix = ();
    type Suffix = ();
    type Output = u128;

    open spec fn spec_raw_keys(&self) -> Seq<Seq<u8>> {
        seq![be_bytes(*self as int, 16)]
    }

    open spec fn spec_key_elems() -> nat {
        1
    }

    open spec fn spec_decodable(bytes: Seq<u8>) -> bool {
        true
    }

    open spec fn spec_decodes(bytes: Seq<u8>) -> bool {
        bytes.len() == 16
    }

    open spec fn spec_decoded(bytes: Seq<u8>, out: u128) -> bool {
        out == be_value(bytes)
    }

    fn KEY_ELEMS() -> (r: u8) {
        1
    }

    fn raw_keys(&self) -> (r: Vec<Vec<u8>>) {
        let u: u128 = *self as u128;
        let r = vec![be_bytes_of(u, 16)];
        proof {
            assert(views(r@) =~= self.spec_raw_keys());
        }
        r
    }

    fn from_slice(bytes: &[u8]) -> (r: StdResult<u128>)
        ensures
            r matches Err(e) ==> key_error(e, wrong_length_text(16, bytes@.len() as int)),
    {
        if bytes.len() != 16 {
            return Err(StdError::deserialize("key", wrong_length(16, bytes.len())));
        }
        proof {
            lemma_be_value_bound(bytes@);
            lemma_byte_range(16);
        }
        let u = be_value_of(bytes);
        Ok(u as u128)
    }
}

impl PrimaryKey for i8 {
    type Prefix = ();
    type Suffix = ();
    type Output = i8;

    open spec fn spec_raw_keys(&self) -> Seq<Seq<u8>> {
        seq![be_bytes(*self + 0x80int, 1)]
    }

    open spec fn spec_key_elems() -> nat {
        1
    }

    open spec fn spec_decodable(bytes: Seq<u8>) -> bool {
        true
    }

    open spec fn spec_decodes(bytes: Seq<u8>) -> bool {
        bytes.len() == 1
    }

    open spec fn spec_decoded(bytes: Seq<u8>, out: i8) -> bool {
        out == be_value(bytes) - 0x80int
    }

    fn KEY_ELEMS() -> (r: u8) {
        1
    }

    fn raw_keys(&self) -> (r: Vec<Vec<u8>>) {
        let u: u128 = if *self >= 0 {
            (*self as u128) + 0x80u128
        } else {
            ((*self as i128) - (i8::MIN as i128)) as u128
        };
        let r = vec![be_bytes_of(u, 1)];
        proof {
            assert(views(r@) =~= self.spec_raw_keys());
        }
        r
    }

    fn from_slice(bytes: &[u8]) -> (r: StdResult<i8>)
        ensures
            r matches Err(e) ==> key_error(e, wrong_length_text(1, bytes@.len() as int)),
    {
        if bytes.len() != 1 {
            return Err(StdError::deserialize("key", wrong_length(1, bytes.len())));
        }
        proof {
            lemma_be_value_bound(bytes@);
            lemma_byte_range(1);
        }
        let u = be_value_of(bytes);
        if u >= 0x80u128 {
            Ok((u - 0x80u128) as i8)
        } else {
            Ok(((u as i128) + (i8::MIN as i128)) as i8)
        }
    }
}

impl PrimaryKey for i16 {
    type Prefix = ();
    type Suffix = ();
    type Output = i16;

    open spec fn spec_raw_keys(&self) -> Seq<Seq<u8>> {
        seq![be_bytes(*self + 0x8000int, 2)]
    }

    open spec fn spec_key_elems() -> nat {
        1
    }

    open spec fn spec_decodable(bytes: Seq<u8>) -> bool {
        true
    }

    open spec fn spec_decodes(bytes: Seq<u8>) -> bool {
        bytes.len() == 2
    }

    open spec fn spec_decoded(bytes: Seq<u8>, out: i16) -> bool {
        out == be_value(bytes) - 0x8000int
    }

    fn KEY_ELEMS() -> (r: u8) {
        1
    }

    fn raw_keys(&self) -> (r: Vec<Vec<u8>>) {
        let u: u128 = if *self >= 0 {
            (*self as u128) + 0x8000u128
        } else {
            ((*self as i128) - (i16::MIN as i128)) as u128
        };
        let r = vec![be_bytes_of(u, 2)];
        proof {
            assert(views(r@) =~= self.spec_raw_keys());
        }
        r
    }

    fn from_slice(bytes: &[u8]) -> (r: StdResult<i16>)
        ensures
            r matches Err(e) ==> key_error(e, wrong_length_text(2, bytes@.len() as int)),
    {
        if bytes.len() != 2 {
            return Err(StdError::deserialize("key", wrong_length(2, bytes.len())));
        }
        proof {
            lemma_be_value_bound(bytes@);
            lemma_byte_range(2);
        }
        let u = be_value_of(bytes);
        if u >= 0x8000u128 {
            Ok((u - 0x8000u128) as i16)
        } else {
            Ok(((u as i128) + (i16::MIN as i128)) as i16)
        }
    }
}

impl PrimaryKey for i32 {
    type Prefix = ();
    type Suffix = ();
    type Output = i32;

    open spec fn spec_raw_keys(&self) -> Seq<Seq<u8>> {
        seq![be_bytes(*self + 0x80000000int, 4)]
    }

    open spec fn spec_key_elems() -> nat {
        1
    }

    open spec fn spec_decodable(bytes: Seq<u8>) -> bool {
        true
    }

    open spec fn spec_decodes(bytes: Seq<u8>) -> bool {
        bytes.len() == 4
    }

    open spec fn spec_decoded(bytes: Seq<u8>, out: i32) -> bool {
        out == be_value(bytes) - 0x80000000int
    }

    fn KEY_ELEMS() -> (r: u8) {
        1
    }

    fn raw_keys(&self) -> (r: Vec<Vec<u8>>) {
        let u: u128 = if *self >= 0 {
            (*self as u128) + 0x80000000u128
        } else {
            ((*self as i128) - (i32::MIN as i128)) as u128
        };
        let r = vec![be_bytes_of(u, 4)];
        proof {
            assert(views(r@) =~= self.spec_raw_keys());
        }
        r
    }

    fn from_slice(bytes: &[u8]) -> (r: StdResult<i32>)
        ensures
            r matches Err(e) ==> key_error(e, wrong_length_text(4, bytes@.len() as int)),
    {
        if bytes.len() != 4 {
            return Err(StdError::deserialize("key", wrong_length(4, bytes.len())));
        }
        proof {
            lemma_be_value_bound(bytes@);
            lemma_byte_range(4);
        }
        let u = be_value_of(bytes);
        if u >= 0x80000000u128 {
            Ok((u - 0x80000000u128) as i32)
        } else {
            Ok(((u as i128) + (i32::MIN as i128)) as i32)
        }
    }
}

impl PrimaryKey for i64 {
    type Prefix = ();
    type Suffix = ();
    type Output = i64;

    open spec fn spec_raw_keys(&self) -> Seq<Seq<u8>> {
        seq![be_bytes(*self + 0x8000000000000000int, 8)]
    }

    open spec fn spec_key_elems() -> nat {
        1
    }

    open spec fn spec_decodable(bytes: Seq<u8>) -> bool {
        true
    }

    open spec fn spec_decodes(bytes: Seq<u8>) -> bool {
        bytes.len() == 8
    }

    open spec fn spec_decoded(bytes: Seq<u8>, out: i64) -> bool {
        out == be_value(bytes) - 0x8000000000000000int
    }

    fn KEY_ELEMS() -> (r: u8) {
        1
    }

    fn raw_keys(&self) -> (r: Vec<Vec<u8>>) {
        let u: u128 = if *self >= 0 {
            (*self as u128) + 0x8000000000000000u128
        } else {
            ((*self as i128) - (i64::MIN as i128)) as u128
        };
        let r = vec![be_bytes_of(u, 8)];
        proof {
            assert(views(r@) =~= self.spec_raw_keys());
        }
        r
    }

    fn from_slice(bytes: &[u8]) -> (r: StdResult<i64>)
        ensures
            r matches Err(e) ==> key_error(e, wrong_length_text(8, bytes@.len() as int)),
    {
        if bytes.len() != 8 {
            return Err(StdError::deserialize("key", wrong_length(8, bytes.len())));
        }
        proof {
            lemma_be_value_bound(bytes@);
            lemma_byte_range(8);
        }
        let u = be_value_of(bytes);
        if u >= 0x8000000000000000u128 {
            Ok((u - 0x8000000000000000u128) as i64)
        } else {
            Ok(((u as i128) + (i64::MIN as i128)) as i64)
        }
    }
}

impl PrimaryKey for i128 {
    type Prefix = ();
    type Suffix = ();
    type Output = i128;

    open spec fn spec_raw_keys(&self) -> Seq<Seq<u8>> {
        seq![be_bytes(*self + 0x80000000000000000000000000000000int, 16)]
    }

    open spec fn spec_key_elems() -> nat {
        1
    }

    open spec fn spec_decodable(bytes: Seq<u8>) -> bool {
        true
    }

    open spec fn spec_decodes(bytes: Seq<u8>) -> bool {
        bytes.len() == 16
    }

    open spec fn spec_decoded(bytes: Seq<u8>, out: i128) -> bool {
        out == be_value(bytes) - 0x80000000000000000000000000000000int
    }

    fn KEY_ELEMS() -> (r: u8) {
        1
    }

    fn raw_keys(&self) -> (r: Vec<Vec<u8>>) {
        let u: u128 = if *self >= 0 {
            (*self as u128) + 0x80000000000000000000000000000000u128
        } else {
            ((*self as i128) - (i128::MIN as i128)) as u128
        };
        let r = vec![be_bytes_of(u, 16)];
        proof {
            assert(views(r@) =~= self.spec_raw_keys());
        }
        r
    }

    fn from_slice(bytes: &[u8]) -> (r: StdResult<i128>)
        ensures
            r matches Err(e) ==> key_error(e, wrong_length_text(16, bytes@.len() as int)),
    {
        if bytes.len() != 16 {
            return Err(StdError::deserialize("key", wrong_length(16, bytes.len())));
        }
        proof {
            lemma_be_value_bound(bytes@);
            lemma_byte_range(16);
        }
        let u = be_value_of(bytes);
        if u >= 0x80000000000000000000000000000000u128 {
            Ok((u - 0x80000000000000000000000000000000u128) as i128)
        } else {
            Ok(((u as i128) + (i128::MIN as i128)) as i128)
        }
    }
}

impl<U: PrimaryKey<Output = U>> PrimaryKey for Int<U> {
    type Prefix = ();
    type Suffix = ();
    type Output = Int<U>;

    open spec fn spec_raw_keys(&self) -> Seq<Seq<u8>> {
        self.0.spec_raw_keys()
    }

    open spec fn spec_key_elems() -> nat {
        1
    }

    open spec fn spec_decodable(bytes: Seq<u8>) -> bool {
        U::spec_decodable(bytes)
    }

    open spec fn spec_decodes(bytes: Seq<u8>) -> bool {
        U::spec_decodes(bytes)
    }

    open spec fn spec_decoded(bytes: Seq<u8>, out: Int<U>) -> bool {
        U::spec_decoded(bytes, out.0)
    }

    fn KEY_ELEMS() -> (r: u8) {
        1
    }

    fn raw_keys(&self) -> (r: Vec<Vec<u8>>) {
        self.0.raw_keys()
    }

    fn from_slice(bytes: &[u8]) -> (r: StdResult<Int<U>>) {
        match U::from_slice(bytes) {
            Ok(v) => Ok(Int(v)),
            Err(e) => Err(e),
        }
    }
}

impl<U: PrimaryKey<Output = U>, const S: u32> PrimaryKey for Dec<U, S> {
    type Prefix = ();
    type Suffix = ();
    type Output = Dec<U, S>;

    open spec fn spec_raw_keys(&self) -> Seq<Seq<u8>> {
        self.0.0.spec_raw_keys()
    }

    open spec fn spec_key_elems() -> nat {
        1
    }

    open spec fn spec_decodable(bytes: Seq<u8>) -> bool {
        U::spec_decodable(bytes)
    }

    open spec fn spec_decodes(bytes: Seq<u8>) -> bool {
        U::spec_decodes(bytes)
    }

    open spec fn spec_decoded(bytes: Seq<u8>, out: Dec<U, S>) -> bool {
        U::spec_decoded(bytes, out.0.0)
    }

    fn KEY_ELEMS() -> (r: u8) {
        1
    }

    fn raw_keys(&self) -> (r: Vec<Vec<u8>>) {
        self.0.0.raw_keys()
    }

    fn from_slice(bytes: &[u8]) -> (r: StdResult<Dec<U, S>>) {
        match U::from_slice(bytes) {
            Ok(v) => Ok(Dec(Int(v))),
            Err(e) => Err(e),
        }
    }
}

/// Appends the raw keys of `more` to `keys`.
fn append_keys(keys: &mut Vec<Vec<u8>>, more: Vec<Vec<u8>>)
    ensures
        views(final(keys)@) == views(old(keys)@) + views(more@),
{
    let ghost m = more@;
    let mut more = more;
    keys.append(&mut more);
    proof {
        assert(views(keys@) =~= views(old(keys)@) + views(m));
    }
}

impl<A: PrimaryKey + Prefixer, B: PrimaryKey> PrimaryKey for (A, B) {
    type Prefix = A;
    type Suffix = B;
    type Output = (A::Output, B::Output);

    open spec fn spec_raw_keys(&self) -> Seq<Seq<u8>> {
        self.0.spec_raw_keys() + self.1.spec_raw_keys()
    }

    open spec fn spec_key_elems() -> nat {
        A::spec_key_elems() + B::spec_key_elems()
    }

    open spec fn spec_decodable(bytes: Seq<u8>) -> bool {
        &&& A::spec_key_elems() <= 255
        &&& match split_spec(A::spec_key_elems(), bytes) {
            Some((a, b)) => A::spec_decodable(a) && B::spec_decodable(b),
            None => false,
        }
    }

    open spec fn spec_decodes(bytes: Seq<u8>) -> bool {
        match split_spec(A::spec_key_elems(), bytes) {
            Some((a, b)) => A::spec_decodes(a) && B::spec_decodes(b),
            None => false,
        }
    }

    open spec fn spec_decoded(bytes: Seq<u8>, out: (A::Output, B::Output)) -> bool {
        match split_spec(A::spec_key_elems(), bytes) {
            Some((a, b)) => A::spec_decoded(a, out.0) && B::spec_decoded(b, out.1),
            None => false,
        }
    }

    fn KEY_ELEMS() -> (r: u8) {
        A::KEY_ELEMS() + B::KEY_ELEMS()
    }

    fn raw_keys(&self) -> (r: Vec<Vec<u8>>) {
        let mut keys = self.0.raw_keys();
        append_keys(&mut keys, self.1.raw_keys());
        keys
    }

    fn from_slice(bytes: &[u8]) -> (r: StdResult<(A::Output, B::Output)>) {
        let (a_raw, b_raw) = split_first_key(A::KEY_ELEMS(), bytes);
        let a = match A::from_slice(a_raw.as_slice()) {
            Ok(a) => a,
            Err(e) => {
                return Err(e);
            },
        };
        let b = match B::from_slice(b_raw) {
            Ok(b) => b,
            Err(e) => {
                return Err(e);
            },
        };
        Ok((a, b))
    }
}

impl<A: PrimaryKey + Prefixer, B: PrimaryKey, C: PrimaryKey> PrimaryKey for (A, B, C) {
    type Prefix = A;
    type Suffix = (B, C);
    type Output = (A::Output, B::Output, C::Output);

    open spec fn spec_raw_keys(&self) -> Seq<Seq<u8>> {
        self.0.spec_raw_keys() + self.1.spec_raw_keys() + self.2.spec_raw_keys()
    }

    open spec fn spec_key_elems() -> nat {
        A::spec_key_elems() + B::spec_key_elems() + C::spec_key_elems()
    }

    open spec fn spec_decodable(bytes: Seq<u8>) -> bool {
        &&& A::spec_key_elems() <= 255
        &&& B::spec_key_elems() <= 255
        &&& match split_spec(A::spec_key_elems(), bytes) {
            Some((a, bc)) => A::spec_decodable(a) && match split_spec(B::spec_key_elems(), bc) {
                Some((b, c)) => B::spec_decodable(b) && C::spec_decodable(c),
                None => false,
            },
            None => false,
        }
    }

    open spec fn spec_decodes(bytes: Seq<u8>) -> bool {
        match split_spec(A::spec_key_elems(), bytes) {
            Some((a, bc)) => A::spec_decodes(a) && match split_spec(B::spec_key_elems(), bc) {
                Some((b, c)) => B::spec_decodes(b) && C::spec_decodes(c),
                None => false,
            },
            None => false,
        }
    }

    open spec fn spec_decoded(bytes: Seq<u8>, out: (A::Output, B::Output, C::Output)) -> bool {
        match split_spec(A::spec_key_elems(), bytes) {
            Some((a, bc)) => A::spec_decoded(a, out.0) && match split_spec(B::spec_key_elems(), bc) {
                Some((b, c)) => B::spec_decoded(b, out.1) && C::spec_decoded(c, out.2),
                None => false,
            },
            None => false,
        }
    }

    fn KEY_ELEMS() -> (r: u8) {
        A::KEY_ELEMS() + B::KEY_ELEMS() + C::KEY_ELEMS()
    }

    fn raw_keys(&self) -> (r: Vec<Vec<u8>>) {
        let mut keys = self.0.raw_keys();
        append_keys(&mut keys, self.1.raw_keys());
        append_keys(&mut keys, self.2.raw_keys());
        keys
    }

    fn from_slice(bytes: &[u8]) -> (r: StdResult<(A::Output, B::Output, C::Output)>) {
        let (a_raw, bc_raw) = split_first_key(A::KEY_ELEMS(), bytes);
        let (b_raw, c_raw) = split_first_key(B::KEY_ELEMS(), bc_raw);
        let a = match A::from_slice(a_raw.as_slice()) {
            Ok(a) => a,
            Err(e) => {
                return Err(e);
            },
        };
        let b = match B::from_slice(b_raw.as_slice()) {
            Ok(b) => b,
            Err(e) => {
                return Err(e);
            },
        };
        let c = match C::from_slice(c_raw) {
            Ok(c) => c,
            Err(e) => {
                return Err(e);
            },
        };
        Ok((a, b, c))
    }
}

impl<A: PrimaryKey + Prefixer, B: PrimaryKey, C: PrimaryKey, D: PrimaryKey> PrimaryKey for (A, B, C, D) {
    type Prefix = A;
    type Suffix = (B, C, D);
    type Output = (A::Output, B::Output, C::Output, D::Output);

    open spec fn spec_raw_keys(&self) -> Seq<Seq<u8>> {
        self.0.spec_raw_keys() + self.1.spec_raw_keys() + self.2.spec_raw_keys() + self.3.spec_raw_keys()
    }

    open spec fn spec_key_elems() -> nat {
        A::spec_key_elems() + B::spec_key_elems() + C::spec_key_elems() + D::spec_key_elems()
    }

    open spec fn spec_decodable(bytes: Seq<u8>) -> bool {
        &&& A::spec_key_elems() <= 255
        &&& B::spec_key_elems() <= 255
        &&& C::spec_key_elems() <= 255
        &&& match split_spec(A::spec_key_elems(), bytes) {
            Some((a, bcd)) => A::spec_decodable(a) && match split_spec(B::spec_key_elems(), bcd) {
                Some((b, cd)) => B::spec_decodable(b) && match split_spec(C::spec_key_elems(), cd) {
                    Some((c, d)) => C::spec_decodable(c) && D::spec_decodable(d),
                    None => false,
                },
                None => false,
            },
            None => false,
        }
    }

    open spec fn spec_decodes(bytes: Seq<u8>) -> bool {
        match split_spec(A::spec_key_elems(), bytes) {
            Some((a, bcd)) => A::spec_decodes(a) && match split_spec(B::spec_key_elems(), bcd) {
                Some((b, cd)) => B::spec_decodes(b) && match split_spec(C::spec_key_elems(), cd) {
                    Some((c, d)) => C::spec_decodes(c) && D::spec_decodes(d),
                    None => false,
                },
                None => false,
            },
            None => false,
        }
    }

    open spec fn spec_decoded(bytes: Seq<u8>, out: (A::Output, B::Output, C::Output, D::Output)) -> bool {
        match split_spec(A::spec_key_elems(), bytes) {
            Some((a, bcd)) => A::spec_decoded(a, out.0) && match split_spec(B::spec_key_elems(), bcd) {
                Some((b, cd)) => B::spec_decoded(b, out.1) && match split_spec(C::spec_key_elems(), cd) {
                    Some((c, d)) => C::spec_decoded(c, out.2) && D::spec_decoded(d, out.3),
                    None => false,
                },
                None => false,
            },
            None => false,
        }
    }

    fn KEY_ELEMS() -> (r: u8) {
        A::KEY_ELEMS() + B::KEY_ELEMS() + C::KEY_ELEMS() + D::KEY_ELEMS()
    }

    fn raw_keys(&self) -> (r: Vec<Vec<u8>>) {
        let mut keys = self.0.raw_keys();
        append_keys(&mut keys, self.1.raw_keys());
        append_keys(&mut keys, self.2.raw_keys());
        append_keys(&mut keys, self.3.raw_keys());
        keys
    }

    fn from_slice(bytes: &[u8]) -> (r: StdResult<(A::Output, B::Output, C::Output, D::Output)>) {
        let (a_raw, bcd_raw) = split_first_key(A::KEY_ELEMS(), bytes);
        let (b_raw, cd_raw) = split_first_key(B::KEY_ELEMS(), bcd_raw);
        let (c_raw, d_raw) = split_first_key(C::KEY_ELEMS(), cd_raw);
        let a = match A::from_slice(a_raw.as_slice()) {
            Ok(a) => a,
            Err(e) => {
                return Err(e);
            },
        };
        let b = match B::from_slice(b_raw.as_slice()) {
            Ok(b) => b,
            Err(e) => {
                return Err(e);
            },
        };
        let c = match C::from_slice(c_raw.as_slice()) {
            Ok(c) => c,
            Err(e) => {
                return Err(e);
            },
        };
        let d = match D::from_slice(d_raw) {
            Ok(d) => d,
            Err(e) => {
                return Err(e);
            },
        };
        Ok((a, b, c, d))
    }
}

/// A reference keys as what it refers to; it counts as a single element.
impl<'k, K: PrimaryKey> PrimaryKey for &'k K {
    type Prefix = K::Prefix;
    type Suffix = K::Suffix;
    type Output = K::Output;

    open spec fn spec_raw_keys(&self) -> Seq<Seq<u8>> {
        (**self).spec_raw_keys()
    }

    open spec fn spec_key_elems() -> nat {
        1
    }

    open spec fn spec_decodable(bytes: Seq<u8>) -> bool {
        K::spec_decodable(bytes)
    }

    open spec fn spec_decodes(bytes: Seq<u8>) -> bool {
        K::spec_decodes(bytes)
    }

    open spec fn spec_decoded(bytes: Seq<u8>, out: K::Output) -> bool {
        K::spec_decoded(bytes, out)
    }

    fn KEY_ELEMS() -> (r: u8) {
        1
    }

    fn raw_keys(&self) -> (r: Vec<Vec<u8>>) {
        (**self).raw_keys()
    }

    fn from_slice(bytes: &[u8]) -> (r: StdResult<K::Output>) {
        K::from_slice(bytes)
    }
}

/// An optional key reads like a pair of a flag and the key: `0` alone for
/// `None`, `1` followed by the key for `Some`.
impl<T: PrimaryKey> PrimaryKey for Option<T> {
    type Prefix = bool;
    type Suffix = T;
    type Output = Option<T::Output>;

    open spec fn spec_raw_keys(&self) -> Seq<Seq<u8>> {
        match self {
            Some(k) => seq![seq![1u8]] + k.spec_raw_keys(),
            None => seq![seq![0u8]],
        }
    }

    open spec fn spec_key_elems() -> nat {
        1 + T::spec_key_elems()
    }

    open spec fn spec_decodable(bytes: Seq<u8>) -> bool {
        match split_spec(1, bytes) {
            Some((tag, rest)) => tag == seq![1u8] ==> T::spec_decodable(rest),
            None => false,
        }
    }

    open spec fn spec_decodes(bytes: Seq<u8>) -> bool {
        match split_spec(1, bytes) {
            Some((tag, rest)) => tag == seq![0u8] || (tag == seq![1u8] && T::spec_decodes(rest)),
            None => false,
        }
    }

    open spec fn spec_decoded(bytes: Seq<u8>, out: Option<T::Output>) -> bool {
        match split_spec(1, bytes) {
            Some((tag, rest)) => match out {
                Some(v) => tag == seq![1u8] && T::spec_decoded(rest, v),
                None => tag == seq![0u8],
            },
            None => false,
        }
    }

    fn KEY_ELEMS() -> (r: u8) {
        1 + T::KEY_ELEMS()
    }

    fn raw_keys(&self) -> (r: Vec<Vec<u8>>) {
        match self {
            Some(k) => {
                let mut keys = true.raw_keys();
                proof {
                    assert(views(keys@) =~= seq![seq![1u8]]);
                }
                append_keys(&mut keys, k.raw_keys());
                keys
            },
            None => {
                let keys = false.raw_keys();
                proof {
                    assert(views(keys@) =~= seq![seq![0u8]]);
                }
                keys
            },
        }
    }

    fn from_slice(bytes: &[u8]) -> (r: StdResult<Option<T::Output>>) {
        let (tag, rest) = split_first_key(1, bytes);
        let flag = bool::from_slice(tag.as_slice());
        proof {
            assert(split_spec(1, bytes@) == Some((tag@, rest@)));
            assert(flag is Ok <==> (tag@ == seq![0u8] || tag@ == seq![1u8]));
            assert(flag == Ok::<bool, StdError>(true) ==> tag@ == seq![1u8]);
            assert(flag == Ok::<bool, StdError>(false) ==> tag@ == seq![0u8]);
        }
        match flag {
            Ok(true) => match T::from_slice(rest) {
                Ok(inner) => Ok(Some(inner)),
                Err(e) => {
                    assert(tag@ != seq![0u8]) by {
                        assert(tag@[0] == 1u8);
                    }
                    Err(e)
                },
            },
            Ok(false) => Ok(None),
            Err(e) => Err(e),
        }
    }
}

} // verus!
