use vstd::prelude::*;
use crate::primary_key::{be_bytes, be_bytes_of};
use vstd::string::StringSliceAdditionalSpecFns;

verus! {

/// How a transaction is being authenticated: simulated to estimate its gas,
/// checked before it enters the mempool, or finalized in a block.
#[derive(Clone, Copy, Debug, PartialEq, Eq, Structural)]
pub enum AuthMode {
    Simulate,
    Check,
    Finalize,
}

/// Why the sequence number a transaction was signed with is refused.
#[derive(Clone, Copy, Debug, PartialEq, Eq, Structural)]
pub enum SequenceError {
    /// A checked transaction carries a sequence below the account's.
    TooOld { expected: u32, got: u32 },
    /// A finalized transaction carries a sequence other than the account's.
    Incorrect { expected: u32, got: u32 },
}

/// Whether the sequence number `got` of a transaction is accepted when the
/// account's sequence, before this transaction, is `expected`. A checked
/// transaction may run ahead, so that several transactions of one account
/// can wait in the mempool; a finalized one must match exactly; a simulated
/// one is not held to it.
pub fn check_sequence(mode: AuthMode, expected: u32, got: u32) -> (r: Result<(), SequenceError>)
    ensures
        r is Ok <==> match mode {
            AuthMode::Check => got >= expected,
            AuthMode::Finalize => got == expected,
            AuthMode::Simulate => true,
        },
        r matches Err(SequenceError::TooOld { expected: e, got: g }) ==> mode == AuthMode::Check && e == expected && g == got,
        r matches Err(SequenceError::Incorrect { expected: e, got: g }) ==> mode == AuthMode::Finalize && e == expected && g == got,
{
    match mode {
        AuthMode::Check => {
            if got >= expected {
                Ok(())
            } else {
                Err(SequenceError::TooOld { expected, got })
            }
        },
        AuthMode::Finalize => {
            if got == expected {
                Ok(())
            } else {
                Err(SequenceError::Incorrect { expected, got })
            }
        },
        AuthMode::Simulate => Ok(()),
    }
}

/// Whether the signature of a transaction is verified: always, except when
/// the transaction is only simulated.
pub fn verifies_signature(mode: AuthMode) -> (r: bool)
    ensures
        r == (mode != AuthMode::Simulate),
{
    match mode {
        AuthMode::Simulate => false,
        _ => true,
    }
}

/// The bytes whose hash the sender of a transaction signs: the messages in
/// their JSON form, the sender's address, the chain ID and the sequence as
/// four big-endian bytes, one after the other. The chain ID and the sequence
/// keep a signature from being replayed on another chain or a second time.
pub fn prehash_sign_data(msgs_json: &[u8], sender: &[u8], chain_id: &str, sequence: u32) -> (r: Vec<u8>)
    ensures
        r@ == msgs_json@ + sender@ + chain_id.spec_bytes() + be_bytes(sequence as int, 4),
{
    let mut prehash = vstd::slice::slice_to_vec(msgs_json);
    let mut s = vstd::slice::slice_to_vec(sender);
    let mut c = vstd::slice::slice_to_vec(chain_id.as_bytes());
    let mut q = be_bytes_of(sequence as u128, 4);
    prehash.append(&mut s);
    prehash.append(&mut c);
    prehash.append(&mut q);
    prehash
}

} // verus!
