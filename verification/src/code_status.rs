use vstd::prelude::*;
use crate::encoding::{join_prefixed, joined, len_prefixed, views};
use crate::primary_key::{be_bytes, be_bytes_of, be_value, be_value_of, bytes_list_text, bytes_text, key_error, lemma_be_roundtrip, lemma_be_value_bound, lemma_byte_range, PrimaryKey, StdError, StdResult};

verus! {

/// A span of time, counted in nanoseconds.
#[derive(Clone, Copy, Debug, PartialEq, Eq, Structural, Hash)]
pub struct Duration {
    pub nanos: u128,
}

impl Duration {
    pub fn from_nanos(nanos: u128) -> (r: Self)
        ensures
            r.nanos == nanos,
    {
        Duration { nanos }
    }

    pub fn into_nanos(self) -> (r: u128)
        ensures
            r == self.nanos,
    {
        self.nanos
    }
}

/// Whether a stored code is used by some contracts, and by how many, or
/// orphaned, and since when.
#[derive(Clone, Copy, Debug, PartialEq, Eq, Structural, Hash)]
pub enum CodeStatus {
    Orphaned { since: Duration },
    InUse { usage: u32 },
}

/// The reason given when the bytes of a fixed-size number have the wrong
/// length.
fn slice_length_reason() -> (r: String)
    ensures
        r@ == "could not convert slice to array"@,
{
    "could not convert slice to array".to_owned()
}

impl PrimaryKey for Duration {
    type Prefix = ();
    type Suffix = ();
    type Output = Duration;

    /// The nanoseconds as sixteen big-endian bytes.
    open spec fn spec_raw_keys(&self) -> Seq<Seq<u8>> {
        seq![be_bytes(self.nanos as int, 16)]
    }

    open spec fn spec_key_elems() -> nat {
        1
    }

    open spec fn spec_decodable(bytes: Seq<u8>) -> bool {
        true
    }

    open spec fn spec_decodes(bytes: Seq<u8>) -> bool {
        bytes.len() == 16
    }

    open spec fn spec_decoded(bytes: Seq<u8>, out: Duration) -> bool {
        out.nanos == be_value(bytes)
    }

    fn KEY_ELEMS() -> (r: u8) {
        1
    }

    fn raw_keys(&self) -> (r: Vec<Vec<u8>>) {
        let r = vec![be_bytes_of(self.into_nanos(), 16)];
        proof {
            assert(views(r@) =~= self.spec_raw_keys());
        }
        r
    }

    fn from_slice(bytes: &[u8]) -> (r: StdResult<Duration>)
        ensures
            r matches Err(e) ==> key_error(e, "could not convert slice to array"@),
    {
        if bytes.len() != 16 {
            return Err(StdError::deserialize("key", slice_length_reason()));
        }
        proof {
            lemma_be_value_bound(bytes@);
            lemma_byte_range(16);
        }
        Ok(Duration::from_nanos(be_value_of(bytes)))
    }
}

impl PrimaryKey for CodeStatus {
    type Prefix = ();
    type Suffix = ();
    type Output = CodeStatus;

    /// A tag, `0` for orphaned and `1` for in use, then the time it has been
    /// orphaned since, as sixteen big-endian bytes of nanoseconds, or the
    /// number of users, as four big-endian bytes.
    open spec fn spec_raw_keys(&self) -> Seq<Seq<u8>> {
        match *self {
            CodeStatus::Orphaned { since } => seq![seq![0u8], be_bytes(since.nanos as int, 16)],
            CodeStatus::InUse { usage } => seq![seq![1u8], be_bytes(usage as int, 4)],
        }
    }

    open spec fn spec_key_elems() -> nat {
        2
    }

    /// The joined key starts with the length of the tag, two bytes, and the
    /// tag itself.
    open spec fn spec_decodable(bytes: Seq<u8>) -> bool {
        bytes.len() >= 3
    }

    open spec fn spec_decodes(bytes: Seq<u8>) -> bool {
        ||| bytes.subrange(0, 3) == seq![0u8, 1u8, 0u8] && bytes.len() == 19
        ||| bytes.subrange(0, 3) == seq![0u8, 1u8, 1u8] && bytes.len() == 7
    }

    open spec fn spec_decoded(bytes: Seq<u8>, out: CodeStatus) -> bool {
        if bytes[2] == 0 {
            out == CodeStatus::Orphaned { since: Duration { nanos: be_value(bytes.subrange(3, bytes.len() as int)) as u128 } }
        } else {
            out == CodeStatus::InUse { usage: be_value(bytes.subrange(3, bytes.len() as int)) as u32 }
        }
    }

    fn KEY_ELEMS() -> (r: u8) {
        2
    }

    fn raw_keys(&self) -> (r: Vec<Vec<u8>>) {
        match *self {
            CodeStatus::Orphaned { since } => {
                let r = vec![vec![0u8], be_bytes_of(since.into_nanos(), 16)];
                proof {
                    assert(r@[0]@ =~= seq![0u8]);
                    assert(views(r@) =~= self.spec_raw_keys());
                }
                r
            },
            CodeStatus::InUse { usage } => {
                let r = vec![vec![1u8], be_bytes_of(usage as u128, 4)];
                proof {
                    assert(r@[0]@ =~= seq![1u8]);
                    assert(views(r@) =~= self.spec_raw_keys());
                }
                r
            },
        }
    }

    fn from_slice(bytes: &[u8]) -> (r: StdResult<CodeStatus>)
        ensures
            r matches Err(e) ==> key_error(
                e,
                if bytes@.subrange(0, 3) == seq![0u8, 1u8, 0u8] || bytes@.subrange(0, 3) == seq![0u8, 1u8, 1u8] {
                    "could not convert slice to array"@
                } else {
                    "unknown tag: "@ + bytes_list_text(bytes@.subrange(0, 3))
                },
            ),
    {
        let rest = vstd::slice::slice_subrange(bytes, 3, bytes.len());
        proof {
            lemma_be_value_bound(rest@);
            lemma_byte_range(16);
            lemma_byte_range(4);
            assert(rest@ =~= bytes@.subrange(3, bytes@.len() as int));
        }
        if bytes[0] == 0 && bytes[1] == 1 && bytes[2] == 0 {
            proof {
                assert(bytes@.subrange(0, 3) =~= seq![0u8, 1u8, 0u8]);
            }
            if rest.len() != 16 {
                return Err(StdError::deserialize("key", slice_length_reason()));
            }
            Ok(CodeStatus::Orphaned { since: Duration::from_nanos(be_value_of(rest)) })
        } else if bytes[0] == 0 && bytes[1] == 1 && bytes[2] == 1 {
            proof {
                assert(bytes@.subrange(0, 3) =~= seq![0u8, 1u8, 1u8]);
            }
            if rest.len() != 4 {
                return Err(StdError::deserialize("key", slice_length_reason()));
            }
            let usage = be_value_of(rest);
            Ok(CodeStatus::InUse { usage: usage as u32 })
        } else {
            proof {
                assert(bytes@.subrange(0, 3) != seq![0u8, 1u8, 0u8] && bytes@.subrange(0, 3) != seq![0u8, 1u8, 1u8]) by {
                    if bytes@.subrange(0, 3) == seq![0u8, 1u8, 0u8] || bytes@.subrange(0, 3) == seq![0u8, 1u8, 1u8] {
                        assert(bytes@.subrange(0, 3)[0] == bytes[0]);
                        assert(bytes@.subrange(0, 3)[1] == bytes[1]);
                        assert(bytes@.subrange(0, 3)[2] == bytes[2]);
                    }
                }
            }
            let tag = vstd::slice::slice_subrange(bytes, 0, 3);
            Err(StdError::deserialize("key", "unknown tag: ".to_owned().concat(bytes_text(tag).as_str())))
        }
    }
}

/// Bytes whose first three are neither the tag of an orphaned code nor that
/// of a code in use are refused, whatever follows them.
pub proof fn law_code_status_refuses_unknown_tags(bytes: Seq<u8>)
    requires
        bytes.len() >= 3,
        bytes.subrange(0, 3) != seq![0u8, 1u8, 0u8],
        bytes.subrange(0, 3) != seq![0u8, 1u8, 1u8],
    ensures
        CodeStatus::spec_decodable(bytes),
        !CodeStatus::spec_decodes(bytes),
{
}

/// Reading back the joined key of a code status gives the status.
pub proof fn law_code_status_key_roundtrip(x: CodeStatus)
    ensures
        CodeStatus::spec_decodable(joined(x.spec_raw_keys())),
        CodeStatus::spec_decodes(joined(x.spec_raw_keys())),
        CodeStatus::spec_decoded(joined(x.spec_raw_keys()), x),
{
    let keys = x.spec_raw_keys();
    let tag = keys[0];
    let payload = keys[1];
    lemma_byte_range(16);
    lemma_byte_range(4);
    assert(keys.drop_last() =~= seq![tag]);
    assert(join_prefixed(seq![tag]) =~= len_prefixed(tag)) by {
        assert(seq![tag].drop_last() =~= Seq::<Seq<u8>>::empty());
        assert(join_prefixed(Seq::<Seq<u8>>::empty()) =~= Seq::<u8>::empty());
        assert(seq![tag].last() == tag);
    }
    let b = joined(keys);
    assert(b =~= seq![0u8, 1u8] + tag + payload);
    assert(b.subrange(3, b.len() as int) =~= payload);
    match x {
        CodeStatus::Orphaned { since } => {
            lemma_be_roundtrip(since.nanos as int, 16);
            assert(b.subrange(0, 3) =~= seq![0u8, 1u8, 0u8]);
        },
        CodeStatus::InUse { usage } => {
            lemma_be_roundtrip(usage as int, 4);
            assert(b.subrange(0, 3) =~= seq![0u8, 1u8, 1u8]);
        },
    }
}

/// Reading back the raw key of a duration gives the duration.
pub proof fn law_duration_key_roundtrip(x: Duration)
    ensures
        x.spec_raw_keys().len() == 1,
        Duration::spec_decodes(x.spec_raw_keys()[0]),
        Duration::spec_decoded(x.spec_raw_keys()[0], x),
{
    lemma_byte_range(16);
    lemma_be_roundtrip(x.nanos as int, 16);
}

} // verus!
