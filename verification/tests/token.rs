use daily_mission::generate_key;
use daily_mission::Claims;
use daily_mission::TokenService;
use daily_mission::TokenServiceError;
use daily_mission::TokenServiceImpl;
use daily_mission::UserId;

const TEST_NOW: u64 = 1_700_000_000;

fn service() -> TokenServiceImpl {
    TokenServiceImpl::new(generate_key(), TEST_NOW)
}

#[test]
fn test_generate_key() {
    let key = generate_key();
    let decoded_key =
        base64::Engine::decode(&base64::prelude::BASE64_STANDARD, key.as_bytes())
            .expect("cannot decode key");
    assert_eq!(decoded_key.len(), 32);
}

#[test]
fn test_token_service_create() {
    let service = service();
    let claims = Claims::new(UserId("user_id".to_string()), 10000000000);

    let token = service.create(claims).expect("failed to create token");
    assert!(!token.0.is_empty());
}

#[test]
fn test_token_service_verify() {
    let service = service();
    let claims = Claims::new(UserId("user_id".to_string()), 10000000000);

    let token = service.create(claims.clone()).expect("failed to create token");
    let user_id = service.verify(token).expect("failed to verify token");
    assert_eq!(user_id.0, claims.user_id.0);
}

#[test]
fn test_verify_invalid_key() {
    let service = service();
    let claims = Claims::new(UserId("user_id".to_string()), 10000000000);
    let token = service.create(claims).expect("failed to create token");

    let invalid_key =
        base64::Engine::encode(&base64::prelude::BASE64_STANDARD, [1u8; 32]);
    let other = TokenServiceImpl::new(invalid_key, TEST_NOW);
    let result = other.verify(token);

    assert!(result.is_err());
}

#[test]
fn test_verify_expired_token() {
    let service = service();
    let claims = Claims::new(UserId("user_id".to_string()), 1000);
    let token = service.create(claims).expect("failed to create token");

    match service.verify(token) {
        Err(TokenServiceError::TokenExpired) => {}
        other => panic!("expected an expired token, got {:?}", other),
    }
}

#[test]
fn test_verify_within_leeway() {
    let key = generate_key();
    let issuing = TokenServiceImpl::new(key.clone(), TEST_NOW);
    let claims = Claims::new(UserId("user_id".to_string()), TEST_NOW as usize);
    let token = issuing.create(claims).expect("failed to create token");

    // Sixty seconds of leeway, as jsonwebtoken grants by default.
    let shortly_after = TokenServiceImpl::new(key.clone(), TEST_NOW + 60);
    assert!(shortly_after.verify(token.clone()).is_ok());
    let too_late = TokenServiceImpl::new(key, TEST_NOW + 61);
    assert!(too_late.verify(token).is_err());
}

#[test]
fn test_verify_malformed_token() {
    let service = service();
    for bad in ["", "abc", "a.b", "a.b.c", "!!.??.##"] {
        match service.verify(daily_mission::Token(bad.to_string())) {
            Err(TokenServiceError::TokenInvalid(_)) => {}
            other => panic!("expected an invalid token, got {:?}", other),
        }
    }
}

#[test]
fn test_token_roundtrip_awkward_user_id() {
    let service = service();
    let spiky = "us\"er\\id";
    let claims = Claims::new(UserId(spiky.to_string()), 10000000000);
    let token = service.create(claims).expect("failed to create token");
    let user_id = service.verify(token).expect("failed to verify token");
    assert_eq!(user_id.0, spiky);
}

#[test]
fn test_verify_tampered_payload() {
    let service = service();
    let claims = Claims::new(UserId("user_id".to_string()), 10000000000);
    let token = service.create(claims).expect("failed to create token");

    // Swap the payload for another user's while keeping the signature.
    let parts: Vec<&str> = token.0.split('.').collect();
    let other_payload = base64::Engine::encode(
        &base64::prelude::BASE64_URL_SAFE_NO_PAD,
        "{\"userId\":\"intruder\",\"exp\":10000000000}",
    );
    let forged = format!("{}.{}.{}", parts[0], other_payload, parts[2]);
    assert!(service.verify(daily_mission::Token(forged)).is_err());
}
