use auth_core::hasher::{hash_password, verify_password, VerifyError};

#[test]
fn hash_then_verify_succeeds() {
    let h = hash_password("correct horse".as_bytes()).unwrap();
    assert!(verify_password(&h, "correct horse".as_bytes()).is_ok());
}

#[test]
fn wrong_password_fails_verification() {
    let h = hash_password("pw one".as_bytes()).unwrap();
    assert!(matches!(verify_password(&h, "pw two".as_bytes()), Err(VerifyError::Mismatch)));
}

#[test]
fn two_hashes_of_one_password_differ_but_both_verify() {
    let h1 = hash_password("same password".as_bytes()).unwrap();
    let h2 = hash_password("same password".as_bytes()).unwrap();
    assert_ne!(h1, h2);
    assert!(verify_password(&h1, "same password".as_bytes()).is_ok());
    assert!(verify_password(&h2, "same password".as_bytes()).is_ok());
}

#[test]
fn malformed_stored_hash_is_told_apart_from_a_mismatch() {
    assert!(matches!(
        verify_password("not-an-encoded-hash", "pw".as_bytes()),
        Err(VerifyError::Malformed)
    ));
    assert!(matches!(verify_password("", "pw".as_bytes()), Err(VerifyError::Malformed)));
}

#[test]
fn empty_password_round_trips() {
    let h = hash_password("".as_bytes()).unwrap();
    assert!(verify_password(&h, "".as_bytes()).is_ok());
    assert!(matches!(verify_password(&h, "x".as_bytes()), Err(VerifyError::Mismatch)));
}

#[test]
fn hash_is_not_the_plaintext_and_is_self_describing() {
    let h = hash_password("secret".as_bytes()).unwrap();
    assert_ne!(h, "secret");
    // the encoded form embeds the algorithm identifier
    assert!(h.starts_with("$argon2"));
}
