use base64::engine::general_purpose::STANDARD;
use base64::Engine;
use crypto_box::aead::OsRng;
use crypto_box::SecretKey;
use matrix_notify::github::{seal_for_github, GitHubError, SecretsClient};

#[test]
fn seal_round_trips_with_libsodium_layout() {
    let sk = SecretKey::generate(&mut OsRng);
    let b64 = seal_for_github(sk.public_key().as_bytes(), b"payload").unwrap();
    let sealed = STANDARD.decode(b64).unwrap();
    // ephemeral pk (32) + tag (16) + plaintext
    assert_eq!(sealed.len(), 32 + 16 + 7);
    assert_eq!(sk.unseal(&sealed).unwrap(), b"payload");
    assert!(seal_for_github(&[0u8; 31], b"x").is_err());
}

#[test]
fn repository_validation() {
    assert!(SecretsClient::new("https://api.github.com", "owner", "t").is_err());
    assert!(SecretsClient::new("https://api.github.com", "/name", "t").is_err());
    assert!(SecretsClient::new("https://api.github.com", "a/b/c", "t").is_err());
    assert!(SecretsClient::new("https://api.github.com", "a/b", "t").is_ok());
}

#[test]
fn repository_error_holds_the_input() {
    match SecretsClient::new("https://api.github.com", "a/", "t") {
        Err(e) => {
            assert_eq!(e.message(), "repository must be `owner/name`, got \"a/\"");
            assert!(matches!(e, GitHubError::Repository(r) if r == "a/"));
        }
        _ => panic!("must be refused"),
    }
}

#[test]
fn put_secret_fetches_key_then_puts_sealed_value() {
    let sk = SecretKey::generate(&mut OsRng);
    let pk_b64 = STANDARD.encode(sk.public_key().as_bytes());
    let c = SecretsClient::new("http://127.0.0.1:80/", "acme/widgets", "ghp_test").ok().unwrap();
    assert_eq!(c.token(), "ghp_test");
    assert_eq!(
        c.url("public-key"),
        "http://127.0.0.1:80/repos/acme/widgets/actions/secrets/public-key"
    );
    assert!(SecretsClient::check("GET", c.url("public-key"), 200, "").is_ok());
    let value = SecretsClient::sealed_value(&format!(" {pk_b64}\n"), "bmV3LXN0YXRl").unwrap();
    assert_eq!(
        c.url("MATRIX_STATE"),
        "http://127.0.0.1:80/repos/acme/widgets/actions/secrets/MATRIX_STATE"
    );
    assert!(SecretsClient::check("PUT", c.url("MATRIX_STATE"), 201, "").is_ok());
    let sent = SecretsClient::update_body(&value, "568250167242549743");
    let body: serde_json::Value = serde_json::from_str(&sent).unwrap();
    assert_eq!(body["key_id"], "568250167242549743");
    let sealed = STANDARD.decode(body["encrypted_value"].as_str().unwrap()).unwrap();
    assert_eq!(sk.unseal(&sealed).unwrap(), b"bmV3LXN0YXRl");
}

#[test]
fn put_secret_surfaces_api_errors() {
    let c = SecretsClient::new("http://127.0.0.1", "acme/widgets", "ghp_test").ok().unwrap();
    let body = r#"{"message":"Resource not accessible by integration"}"#;
    let err = SecretsClient::check("GET", c.url("public-key"), 403, body).unwrap_err();
    assert_eq!(
        err.message(),
        format!("GitHub API GET {} returned 403: {body}", c.url("public-key"))
    );
    match err {
        GitHubError::Status { method, path, status, body } => {
            assert_eq!(method, "GET");
            assert_eq!(path, "http://127.0.0.1/repos/acme/widgets/actions/secrets/public-key");
            assert_eq!(status, 403);
            assert!(body.contains("Resource not accessible"), "{body}");
        }
        _ => panic!("must be an error"),
    }
}

#[test]
fn long_answers_are_cut() {
    let body = "é".repeat(301);
    for status in [199, 300, 500] {
        match SecretsClient::check("PUT", String::new(), status, &body) {
            Err(GitHubError::Status { body, .. }) => assert_eq!(body, "é".repeat(300)),
            _ => panic!("must be an error"),
        }
    }
    assert!(SecretsClient::check("PUT", String::new(), 299, &body).is_ok());
}

#[test]
fn public_keys() {
    assert_eq!(SecretsClient::public_key(&STANDARD.encode([5u8; 32])).unwrap(), [5u8; 32]);
    for bad in [STANDARD.encode([5u8; 31]), STANDARD.encode([5u8; 33]), "no base64".to_owned()] {
        assert!(matches!(SecretsClient::public_key(&bad), Err(GitHubError::PublicKey)), "{bad}");
        assert!(matches!(SecretsClient::sealed_value(&bad, "x"), Err(GitHubError::PublicKey)), "{bad}");
    }
    assert_eq!(GitHubError::PublicKey.message(), "repository public key is not a 32-byte base64 value");
}
