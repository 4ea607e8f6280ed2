use auth_service::config::Config;
use auth_service::crypto::CryptoService;

fn sample() -> Config {
    Config {
        host: "127.0.0.1".to_string(),
        port: 8080,
        database_url: "postgres://localhost/users".to_string(),
        secret_key: "hash-key".to_string(),
        jwt_secret: "signing-key".to_string(),
    }
}

#[test]
fn crypto_service_holds_both_secrets() {
    let c = sample();
    let s: CryptoService = c.crypto_service();
    assert_eq!(s.hash_key().as_str(), "hash-key");
    assert_eq!(s.signing_key().as_str(), "signing-key");
}

#[test]
fn crypto_service_clone_shares_secrets() {
    let s = sample().crypto_service();
    let t = s.clone();
    assert!(std::sync::Arc::ptr_eq(&s.key, &t.key));
    assert!(std::sync::Arc::ptr_eq(&s.jwt_secret, &t.jwt_secret));
}
