use grug::{check_sequence, fee_transfers, prehash_sign_data, verifies_signature, AuthMode, Int, SequenceError};

#[test]
fn checked_transactions_may_run_ahead() {
    assert_eq!(check_sequence(AuthMode::Check, 5, 5), Ok(()));
    assert_eq!(check_sequence(AuthMode::Check, 5, 9), Ok(()));
    assert_eq!(check_sequence(AuthMode::Check, 5, 4), Err(SequenceError::TooOld { expected: 5, got: 4 }));
}

#[test]
fn finalized_transactions_match_exactly() {
    assert_eq!(check_sequence(AuthMode::Finalize, 5, 5), Ok(()));
    assert_eq!(check_sequence(AuthMode::Finalize, 5, 6), Err(SequenceError::Incorrect { expected: 5, got: 6 }));
    assert_eq!(check_sequence(AuthMode::Finalize, 5, 4), Err(SequenceError::Incorrect { expected: 5, got: 4 }));
}

#[test]
fn simulations_skip_sequence_and_signature() {
    assert_eq!(check_sequence(AuthMode::Simulate, 5, 0), Ok(()));
    assert!(!verifies_signature(AuthMode::Simulate));
    assert!(verifies_signature(AuthMode::Check));
    assert!(verifies_signature(AuthMode::Finalize));
}

#[test]
fn sign_data_layout() {
    let bytes = prehash_sign_data(b"[{\"a\":1}]", &[0xaa, 0xbb], "dev-1", 258);
    let mut expected = b"[{\"a\":1}]".to_vec();
    expected.extend_from_slice(&[0xaa, 0xbb]);
    expected.extend_from_slice(b"dev-1");
    expected.extend_from_slice(&[0, 0, 1, 2]);
    assert_eq!(bytes, expected);
}

#[test]
fn fee_transfers_skip_zero_amounts() {
    assert_eq!(fee_transfers(false, Int(30), Int(70)), (Some(Int(30)), Some(Int(70))));
    assert_eq!(fee_transfers(false, Int(0), Int(70)), (None, Some(Int(70))));
    assert_eq!(fee_transfers(false, Int(30), Int(0)), (Some(Int(30)), None));
    assert_eq!(fee_transfers(true, Int(30), Int(70)), (None, None));
}
