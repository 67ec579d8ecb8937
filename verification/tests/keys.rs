use clearglass::keys::{accept_keys, find_key, read_keys, JwksFetch, KeyCache, KeyError};
use jsonwebtoken::jwk::Jwk;
use jsonwebtoken::{decode, encode, Algorithm, DecodingKey, EncodingKey, Header, Validation};
use serde_json::Value;

/// A published secret of one letter, for signatures that both sides can make.
fn oct(kid: &str, secret: &str) -> String {
    format!(r#"{{"kty":"oct","kid":"{kid}","k":"{secret}"}}"#)
}

fn body(keys: &[String]) -> JwksFetch {
    JwksFetch::Body(format!(r#"{{"keys":[{}]}}"#, keys.join(",")).into_bytes())
}

/// Whether a signature made with the secret holds under the key.
fn fits(key: &DecodingKey, secret: &[u8]) -> bool {
    let claims: Value = serde_json::from_str("{}").unwrap();
    let token = encode(
        &Header::new(Algorithm::HS256),
        &claims,
        &EncodingKey::from_secret(secret),
    )
    .unwrap();
    let mut validation = Validation::new(Algorithm::HS256);
    validation.required_spec_claims.clear();
    decode::<Value>(&token, key, &validation).is_ok()
}

// base64 of the secrets "A" and "B"
const A: &str = "QQ";
const B: &str = "Qg";

#[test]
fn first_key_with_the_kid_is_taken() {
    let fetch = body(&[oct("x", A), oct("k", B), oct("k", A)]);
    let mut cache = KeyCache::new();
    let key = match cache.receive("k", &fetch) {
        Ok(key) => key,
        Err(e) => panic!("{}", e.message()),
    };
    assert!(fits(&key, b"B"));
    assert!(!fits(&key, b"A"));
    assert!(fits(&cache.get("k").unwrap(), b"B"));
    assert!(cache.get("x").is_none());
}

#[test]
fn key_that_is_held_stays() {
    let mut cache = KeyCache::new();
    assert!(cache.receive("k", &body(&[oct("k", A)])).is_ok());
    assert!(cache.receive("other", &body(&[oct("other", B)])).is_ok());
    assert!(cache.receive("k", &body(&[])).is_err());
    assert!(fits(&cache.get("k").unwrap(), b"A"));
    assert!(fits(&cache.get("other").unwrap(), b"B"));
    // a key under the same kid takes its place
    assert!(cache.receive("k", &body(&[oct("k", B)])).is_ok());
    assert!(fits(&cache.get("k").unwrap(), b"B"));
    assert!(fits(&cache.get("other").unwrap(), b"B"));
}

fn failure(fetch: &JwksFetch) -> KeyError {
    let mut cache = KeyCache::new();
    let error = match cache.receive("k", fetch) {
        Ok(_) => panic!("there is a key"),
        Err(e) => e,
    };
    assert!(cache.get("k").is_none());
    error
}

#[test]
fn failures_are_told_apart() {
    let e = failure(&JwksFetch::Unreachable("no route".to_string()));
    assert_eq!(e, KeyError::Fetch("no route".to_string()));
    assert_eq!(e.message(), "failed to fetch JWKS: no route");

    let e = failure(&JwksFetch::Unreadable("cut off".to_string()));
    assert_eq!(e, KeyError::Parse("cut off".to_string()));
    assert_eq!(e.message(), "failed to parse JWKS response: cut off");

    for text in ["", "{}", "[]", "{\"keys\":[{}]}", "not json"] {
        let e = failure(&JwksFetch::Body(text.as_bytes().to_vec()));
        assert_eq!(
            e.message(),
            "failed to parse JWKS response: error decoding response body"
        );
    }

    let e = failure(&body(&[oct("x", A)]));
    assert_eq!(e, KeyError::NotFound("k".to_string()));
    assert_eq!(e.message(), "key not found in JWKS for kid: k");

    let e = failure(&body(&[oct("k", "?")]));
    assert!(matches!(e, KeyError::Build(_)));
    assert!(e
        .message()
        .starts_with("failed to create DecodingKey from JWK: Base64 error: "));
}

#[test]
fn keys_are_found_by_kid() {
    let keys: Vec<Jwk> = match read_keys(&body(&[
        oct("a", A),
        r#"{"kty":"oct","k":"QQ"}"#.to_string(),
        oct("b", B),
    ])) {
        Ok(keys) => keys,
        Err(e) => panic!("{}", e.message()),
    };
    assert_eq!(keys.len(), 3);
    assert_eq!(find_key(&keys, "a"), Some(0));
    assert_eq!(find_key(&keys, "b"), Some(2));
    assert_eq!(find_key(&keys, "c"), None);
    assert_eq!(find_key(&keys, ""), None);
    let mut cache = KeyCache::new();
    assert!(cache.select("b", &keys).is_ok());
    assert!(fits(&cache.get("b").unwrap(), b"B"));
    assert!(matches!(
        accept_keys(Ok(keys)),
        Ok(taken) if taken.len() == 3
    ));
}

#[test]
fn made_key_is_kept() {
    let mut cache = KeyCache::new();
    let made = DecodingKey::from_secret(b"A");
    assert!(matches!(cache.keep("k", Ok(made)), Ok(key) if fits(&key, b"A")));
    assert!(fits(&cache.get("k").unwrap(), b"A"));
    cache.insert("k".to_string(), DecodingKey::from_secret(b"B"));
    assert!(fits(&cache.get("k").unwrap(), b"B"));
}
