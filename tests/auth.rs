use auth_service::crypto::{CryptoService, HashError};
use auth_service::hex::{hex_decode, hex_encode};
use auth_service::token::{check_claims, AuthError, Claims, TOKEN_TTL_SECS};
use auth_service::user::{insert_error, prepare_user, resolve, NewUser, UserError};
use std::sync::Arc;

fn service(hash_key: &str, signing_key: &str) -> CryptoService {
    CryptoService { key: Arc::new(hash_key.to_string()), jwt_secret: Arc::new(signing_key.to_string()) }
}

const NOW: u64 = 1_700_000_000;

#[test]
fn hashing_twice_differs_and_both_verify() {
    let s = service("hash-key", "signing-key");
    let h1 = s.hash_password("hunter2").unwrap();
    let h2 = s.hash_password("hunter2").unwrap();
    assert_ne!(h1, h2);
    assert_eq!(s.verify_password("hunter2", &h1), Ok(true));
    assert_eq!(s.verify_password("hunter2", &h2), Ok(true));
}

#[test]
fn other_password_does_not_verify() {
    let s = service("hash-key", "signing-key");
    let h = s.hash_password("hunter2").unwrap();
    assert_eq!(s.verify_password("hunter3", &h), Ok(false));
}

#[test]
fn other_hash_key_does_not_verify() {
    let s = service("hash-key", "signing-key");
    let t = service("other-key", "signing-key");
    let h = s.hash_password("hunter2").unwrap();
    assert_eq!(t.verify_password("hunter2", &h), Ok(false));
}

#[test]
fn malformed_hash_is_an_error() {
    let s = service("hash-key", "signing-key");
    assert_eq!(s.verify_password("hunter2", "not a hash"), Err(HashError::Backend));
}

#[test]
fn alice_registration_scenario() {
    let s = service("hash-key", "signing-key");
    let new_user = NewUser {
        username: "alice".to_string(),
        email: "alice@example.com".to_string(),
        password: "correct-horse".to_string(),
    };
    let row = s.user_row(new_user).unwrap();
    assert_eq!(row.username, "alice");
    assert_eq!(row.email, "alice@example.com");
    assert_ne!(row.pass_hash, "correct-horse");
    assert!(!row.pass_hash.is_empty());
    assert_eq!(s.verify_password("correct-horse", &row.pass_hash), Ok(true));
    assert_eq!(s.verify_password("wrong-password", &row.pass_hash), Ok(false));
}

#[test]
fn issued_token_validates_to_its_user() {
    let s = service("hash-key", "signing-key");
    let id: u128 = 0x1234_5678_9abc_def0_0fed_cba9_8765_4321;
    let t = s.issue(id, NOW).unwrap();
    assert_eq!(t.len(), 112);
    assert_eq!(s.validate(&t, NOW), Ok(id));
    assert_eq!(s.validate(&t, NOW + TOKEN_TTL_SECS - 1), Ok(id));
}

#[test]
fn expired_token_is_refused() {
    let s = service("hash-key", "signing-key");
    let t = s.issue(7, NOW).unwrap();
    assert_eq!(s.validate(&t, NOW + TOKEN_TTL_SECS), Err(AuthError::NotAuthorized));
    assert_eq!(s.validate(&t, u64::MAX), Err(AuthError::NotAuthorized));
}

#[test]
fn token_under_other_signing_key_is_refused() {
    let s = service("hash-key", "signing-key");
    let other = service("hash-key", "another-signing-key");
    let t = s.issue(7, NOW).unwrap();
    assert_eq!(other.validate(&t, NOW), Err(AuthError::NotAuthorized));
}

#[test]
fn tampered_token_is_refused() {
    let s = service("hash-key", "signing-key");
    let t = s.issue(42, NOW).unwrap();
    for i in [0usize, 31, 40, 47, 48, 100, 111] {
        let mut chars: Vec<char> = t.chars().collect();
        chars[i] = if chars[i] == '0' { '1' } else { '0' };
        let bad: String = chars.into_iter().collect();
        assert_eq!(s.validate(&bad, NOW), Err(AuthError::NotAuthorized));
    }
    assert_eq!(s.validate(&t[..110], NOW), Err(AuthError::NotAuthorized));
    assert_eq!(s.validate(&t.to_uppercase(), NOW), Err(AuthError::NotAuthorized));
    assert_eq!(s.validate("", NOW), Err(AuthError::NotAuthorized));
    assert_eq!(s.validate("not-a-token", NOW), Err(AuthError::NotAuthorized));
}

#[test]
fn check_claims_decides_by_expiry() {
    let c = Claims { sub: 9, exp: 100 };
    assert_eq!(check_claims(Some(c), 99), Ok(9));
    assert_eq!(check_claims(Some(c), 100), Err(AuthError::NotAuthorized));
    assert_eq!(check_claims(None, 0), Err(AuthError::NotAuthorized));
}

#[test]
fn hex_round_trip() {
    let b: Vec<u8> = vec![0x00, 0x0f, 0xa5, 0xff];
    let cs = hex_encode(&b);
    let text: String = cs.iter().collect();
    assert_eq!(text, "000fa5ff");
    assert_eq!(hex_decode(&cs), Some(b));
    assert_eq!(hex_decode(&vec!['0']), None);
    assert_eq!(hex_decode(&vec!['0', 'g']), None);
    assert_eq!(hex_decode(&vec!['A', 'B']), None);
}

#[test]
fn row_is_built_only_after_hashing() {
    let nu = NewUser { username: "bob".to_string(), email: "bob@example.com".to_string(), password: "pw".to_string() };
    let row = prepare_user(nu, Ok("$argon2id$x".to_string())).unwrap();
    assert_eq!(row.username, "bob");
    assert_eq!(row.email, "bob@example.com");
    assert_eq!(row.pass_hash, "$argon2id$x");
    let nu = NewUser { username: "bob".to_string(), email: "bob@example.com".to_string(), password: "pw".to_string() };
    assert!(matches!(prepare_user(nu, Err(HashError::Backend)), Err(UserError::Hashing)));
}

#[test]
fn duplicate_insert_is_a_uniqueness_violation() {
    assert_eq!(insert_error(true), UserError::UniquenessViolation);
    assert_eq!(insert_error(false), UserError::Persistence);
}

#[test]
fn resolve_is_all_or_nothing() {
    assert_eq!(resolve(Some(5u32)), Ok(5));
    assert_eq!(resolve::<u32>(None), Err(AuthError::NotAuthorized));
}
