use idempotency_kit::key::is_valid_scope;
use idempotency_kit::{IdempotencyError, IdempotencyKey};

fn key(scope: &str, body: &[u8]) -> IdempotencyKey {
    IdempotencyKey::derive(scope, body).unwrap()
}

#[test]
fn derivation_is_deterministic() {
    let a = IdempotencyKey::derive("orders", b"payload-1").unwrap();
    let b = IdempotencyKey::derive("orders", b"payload-1").unwrap();
    assert_eq!(a, b);

    let other_bytes = IdempotencyKey::derive("orders", b"payload-2").unwrap();
    assert_ne!(a, other_bytes);

    let other_scope = IdempotencyKey::derive("payments", b"payload-1").unwrap();
    assert_ne!(a, other_scope);
}

#[test]
fn key_format_is_scope_colon_hex() {
    let key = IdempotencyKey::derive("orders", b"payload").unwrap();
    assert!(key.as_str().starts_with("orders:"));
    let hex = key.hex();
    assert_eq!(hex.len(), 64);
    assert!(hex.bytes().all(|b| matches!(b, b'0'..=b'9' | b'a'..=b'f')));
    assert_eq!(key.as_str(), format!("orders:{hex}"));
    assert_eq!(key.scope(), "orders");
    assert_eq!(key.to_string(), key.as_str());
}

#[test]
fn different_requests_never_collide_in_practice() {
    let seen: std::collections::HashSet<String> = (0_u32..1_000)
        .map(|i| {
            IdempotencyKey::derive("probe", &i.to_le_bytes())
                .unwrap()
                .as_str()
                .to_owned()
        })
        .collect();
    assert_eq!(seen.len(), 1_000);
}

#[test]
fn scope_validation_accepts_charset() {
    for scope in [
        "a",
        "orders",
        "checkout-v2",
        "a.b_c-d9",
        "0",
        &"x".repeat(64),
    ] {
        assert!(
            IdempotencyKey::derive(scope, b"").is_ok(),
            "scope {scope:?} must be accepted"
        );
    }
}

#[test]
fn scope_validation_rejects_the_rest() {
    let rejected = [
        "",              // empty
        "Orders",        // uppercase
        "has space",     // space
        "with/slash",    // path traversal attempt
        "with:colon",    // collides with the scope:hex separator
        "ünicode",       // non-ASCII
        "emoji🙂",       // non-ASCII
        &"x".repeat(65), // too long
    ];
    for scope in rejected {
        let err = IdempotencyKey::derive(scope, b"").expect_err("scope must be rejected");
        assert!(
            matches!(err, IdempotencyError::InvalidScope { .. }),
            "scope {scope:?} must be InvalidScope, got {err:?}"
        );
    }
}

#[test]
fn derivation_is_deterministic_and_scope_scoped() {
    let a = key("payments", br#"{"amount":4200}"#);
    let b = key("payments", br#"{"amount":4200}"#);
    assert_eq!(a, b);

    // Scope namespaces the key: identical bytes under different scopes
    // must never share a claim.
    let other = key("refunds", br#"{"amount":4200}"#);
    assert_ne!(a, other);
    assert_eq!(a.scope(), "payments");
    assert_eq!(a.as_str().len(), "payments".len() + 1 + 64);
}

#[test]
fn invalid_scopes_are_typed_errors() {
    for scope in ["", "UPPER", "sp ace", "sl/ash", "co:lon", &"x".repeat(65)] {
        let err = IdempotencyKey::derive(scope, b"payload").unwrap_err();
        assert_eq!(
            err,
            IdempotencyError::InvalidScope {
                scope: scope.to_owned()
            }
        );
    }
}

#[test]
fn digest_is_blake3_in_lowercase_hex() {
    assert_eq!(
        key("empty", b"").as_str(),
        "empty:af1349b9f5f9a1a6a0404dea36dcc9499bcb25c9adc112b7cc9a93cae41f3262"
    );
}

#[test]
fn digests_are_rendered_byte_by_byte() {
    let mut digest = [0_u8; 32];
    digest[0] = 0x0f;
    digest[1] = 0xa9;
    digest[31] = 0xfe;
    let key = IdempotencyKey::from_digest("s", &digest);
    assert_eq!(key.hex(), format!("0fa9{}fe", "00".repeat(29)));
    assert_eq!(key.as_str(), format!("s:{}", key.hex()));
    assert_eq!(key.clone(), key);

    digest[31] = 0xff;
    assert_ne!(IdempotencyKey::from_digest("s", &digest), key);
}

#[test]
fn scope_bounds_are_exact() {
    assert!(is_valid_scope("a-z"));
    assert!(is_valid_scope(&"9".repeat(64)));
    assert!(!is_valid_scope(&"9".repeat(65)));
    assert!(!is_valid_scope("`"));
    assert!(!is_valid_scope("{"));
    assert!(!is_valid_scope("é"));
}

#[test]
fn longest_key_takes_129_characters() {
    assert_eq!(key(&"x".repeat(64), b"").as_str().len(), 129);
    assert_eq!(key(&"x".repeat(63), b"").as_str().len(), 128);
}
