//! Tests of the authentication and token services and the surface
//! records.

use stellaron_lib::authentication::AuthenticationService;
use stellaron_lib::dto::user::{NewUserDTO, UserDTO};
use stellaron_lib::token::Tokenizer;

#[test]
fn fresh_hash_verifies_against_its_password() {
    let auth = AuthenticationService::new();
    let hash = auth.hash_and_verify("correct horse").unwrap();
    assert!(hash.starts_with("$argon2"));
    assert_eq!(auth.verify_password("correct horse", &hash).unwrap(), true);
    assert_eq!(auth.verify_password("wrong horse", &hash).unwrap(), false);
}

#[test]
fn malformed_hash_is_an_error_not_a_mismatch() {
    let auth = AuthenticationService::new();
    assert!(auth.verify_password("pw", "not a phc string").is_err());
}

#[test]
fn issued_token_decodes_to_its_claims() {
    let tokenizer = Tokenizer {
        secret_key: "a-test-signing-key".to_string(),
        expiration_duration: 3600,
    };
    let token = tokenizer.generate_token(42).unwrap();
    let claims = tokenizer.decode_token(&token).unwrap();
    assert_eq!(claims.sub, 42);
    assert!(claims.exp > 0);
    let refreshed = tokenizer.refresh_token(42).unwrap();
    let claims2 = tokenizer.decode_token(&refreshed).unwrap();
    assert_eq!(claims2.sub, 42);
}

#[test]
fn token_fails_under_another_key_or_past_expiry() {
    let tokenizer = Tokenizer {
        secret_key: "a-test-signing-key".to_string(),
        expiration_duration: 3600,
    };
    let other = Tokenizer {
        secret_key: "another-signing-key".to_string(),
        expiration_duration: 3600,
    };
    let token = tokenizer.generate_token(7).unwrap();
    assert!(other.decode_token(&token).is_err());

    let expired = Tokenizer {
        secret_key: "a-test-signing-key".to_string(),
        expiration_duration: -7200,
    };
    let old = expired.generate_token(7).unwrap();
    assert!(tokenizer.decode_token(&old).is_err());
}

#[test]
fn refresh_tokens_are_hyphenated_identifiers() {
    let tokenizer = Tokenizer {
        secret_key: "a-test-signing-key".to_string(),
        expiration_duration: 60,
    };
    let a = tokenizer.generate_refresh_token();
    let b = tokenizer.generate_refresh_token();
    assert_eq!(a.len(), 36);
    assert_eq!(a.chars().filter(|c| *c == '-').count(), 4);
    assert_ne!(a, b);
}

#[test]
fn registration_maps_to_user_record_without_password() {
    let new_user = NewUserDTO {
        username: "ada".to_string(),
        email: "ada@example.com".to_string(),
        password: "pw".to_string(),
        role: Some("admin".to_string()),
        created_at: None,
    };
    let user = UserDTO::from(new_user);
    assert_eq!(user.username, "ada");
    assert_eq!(user.email, "ada@example.com");
    assert_eq!(user.role.as_deref(), Some("admin"));
    assert!(user.created_at.is_none());
}
