use daily_mission::HashServiceError;
use daily_mission::PasswordHashService;
use daily_mission::PasswordHashServiceImpl;

#[test]
fn test_same_password() {
    let password = "#password!";
    let hash_password = PasswordHashServiceImpl
        .hash_password(password)
        .expect("hashing must succeed");
    let verify_result = PasswordHashServiceImpl
        .verify_password(password, &hash_password)
        .expect("verification must run");
    assert!(verify_result);
}

#[test]
fn test_wrong_password() {
    let password = "#password!";
    let wrong_password = "!wrong_password?";

    let hash_password = PasswordHashServiceImpl
        .hash_password(password)
        .expect("hashing must succeed");
    let verify_result = PasswordHashServiceImpl
        .verify_password(wrong_password, &hash_password)
        .expect("verification must run");
    assert!(!verify_result);
}

#[test]
fn test_different_hash() {
    let password = "#password!";

    let hash_password1 = PasswordHashServiceImpl
        .hash_password(password)
        .expect("hashing must succeed");
    let hash_password2 = PasswordHashServiceImpl
        .hash_password(password)
        .expect("hashing must succeed");
    assert_ne!(hash_password1, hash_password2);
}

#[test]
fn test_invalid_hash_format() {
    let password = "#password!";
    let invalid_hash = "invalid_hash_format";

    let result = PasswordHashServiceImpl.verify_password(password, invalid_hash);

    assert!(result.is_err());
    match result {
        Err(HashServiceError::FailedToHash) => {}
        _ => panic!("Unexpected error type"),
    }
}
