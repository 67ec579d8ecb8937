use base64::engine::general_purpose::URL_SAFE_NO_PAD;
use base64::Engine;
use clearglass::access::{Forwarded, Outcome, Policy};
use clearglass::keys::{JwksFetch, KeyCache, KeyError};
use clearglass::proxy::{
    after_header, after_key, after_signature, claims_read, conclude, handle_validate, keys_fetched,
    refuse, response, token_scopes, SignedToken, Step,
};
use clearglass::reply::{text_response, Status, TextResponse};
use clearglass::token::{
    accept, accept_signature, bearer_token, check_signature, read_header, require_key_id,
    verify_token, BearerError, TokenError, TokenHeader,
};
use ed25519_dalek::pkcs8::EncodePrivateKey;
use ed25519_dalek::SigningKey;
use http::StatusCode;
use jsonwebtoken::crypto;
use jsonwebtoken::errors::{Error as JwtError, ErrorKind};
use jsonwebtoken::jwk::Jwk;
use jsonwebtoken::{decode, encode, Algorithm, DecodingKey, EncodingKey, Header, Validation};
use serde::de::{Deserialize, Deserializer, IgnoredAny, MapAccess, Visitor};
use serde_json::Value;

const TEST_KID: &str = "test-key-id";

struct Fixture {
    encoding_key: EncodingKey,
    decoding_key: DecodingKey,
    jwks_json: String,
}

fn fixture_of(seed: u8) -> Fixture {
    let signing_key = SigningKey::from_bytes(&[seed; 32]);

    let priv_der = signing_key
        .to_pkcs8_der()
        .expect("Ed25519 PKCS8 DER encoding failed");
    let encoding_key = EncodingKey::from_ed_der(priv_der.as_bytes());

    let verifying_key = signing_key.verifying_key();
    let x = URL_SAFE_NO_PAD.encode(verifying_key.as_bytes());

    let jwk_json = format!(r#"{{"kty":"OKP","crv":"Ed25519","kid":"{TEST_KID}","x":"{x}"}}"#);
    let jwks_json = format!(r#"{{"keys":[{jwk_json}]}}"#);

    let jwk: Jwk = serde_json::from_str(&jwk_json).expect("JWK parse failed");
    let decoding_key = DecodingKey::from_jwk(&jwk).expect("DecodingKey build failed");

    Fixture {
        encoding_key,
        decoding_key,
        jwks_json,
    }
}

fn fixture() -> Fixture {
    fixture_of(42)
}

fn now() -> u64 {
    std::time::SystemTime::now()
        .duration_since(std::time::UNIX_EPOCH)
        .unwrap()
        .as_secs()
}

fn sign(claims: &str, header: &Header) -> String {
    let claims: Value = serde_json::from_str(claims).expect("claims parse failed");
    encode(header, &claims, &fixture().encoding_key).expect("JWT encode failed")
}

fn header() -> Header {
    let mut header = Header::new(Algorithm::EdDSA);
    header.kid = Some(TEST_KID.to_string());
    header
}

fn make_jwt(scope: &str) -> String {
    let exp = now() + 3600;
    if scope.is_empty() {
        sign(
            &format!(r#"{{"sub":"test-subject","exp":{exp}}}"#),
            &header(),
        )
    } else {
        sign(
            &format!(r#"{{"sub":"test-subject","exp":{exp},"scope":"{scope}"}}"#),
            &header(),
        )
    }
}

/// A cache with the key in it, so that no key is fetched.
fn seeded() -> KeyCache {
    let mut cache = KeyCache::new();
    cache.insert(TEST_KID.to_string(), fixture().decoding_key);
    cache
}

fn bearer(token: &str) -> String {
    format!("Bearer {token}")
}

fn body(resp: &http::Response<Vec<u8>>) -> String {
    String::from_utf8(resp.body().clone()).unwrap()
}

/// Claims of which only the scope is looked at.
struct ScopeClaim(Option<String>);

struct ScopeVisitor;

impl<'de> Visitor<'de> for ScopeVisitor {
    type Value = ScopeClaim;

    fn expecting(&self, f: &mut std::fmt::Formatter<'_>) -> std::fmt::Result {
        f.write_str("claims")
    }

    fn visit_map<A: MapAccess<'de>>(self, mut map: A) -> Result<ScopeClaim, A::Error> {
        let mut scope = None;
        while let Some(name) = map.next_key::<String>()? {
            if name == "scope" {
                scope = map.next_value::<Option<String>>()?;
            } else {
                map.next_value::<IgnoredAny>()?;
            }
        }
        Ok(ScopeClaim(scope))
    }
}

impl<'de> Deserialize<'de> for ScopeClaim {
    fn deserialize<D: Deserializer<'de>>(deserializer: D) -> Result<Self, D::Error> {
        deserializer.deserialize_map(ScopeVisitor)
    }
}

fn read(signed: &SignedToken) -> Result<Option<String>, String> {
    let mut validation = Validation::new(signed.alg);
    validation.insecure_disable_signature_validation();
    validation.validate_exp = false;
    validation.validate_nbf = false;
    validation.validate_aud = false;
    validation.required_spec_claims.clear();
    match decode::<ScopeClaim>(&signed.token, &signed.key, &validation) {
        Ok(data) => Ok(data.claims.0),
        Err(e) => Err(e.to_string()),
    }
}

/// A token with the given bytes for claims.
fn sign_bytes(claims: &[u8]) -> String {
    let head = format!(r#"{{"alg":"EdDSA","kid":"{TEST_KID}"}}"#);
    let message = format!(
        "{}.{}",
        URL_SAFE_NO_PAD.encode(head),
        URL_SAFE_NO_PAD.encode(claims)
    );
    let signature = crypto::sign(
        message.as_bytes(),
        &fixture().encoding_key,
        Algorithm::EdDSA,
    )
    .expect("signing failed");
    format!("{message}.{signature}")
}

/// Goes through the steps with what a fetch would give.
fn run(
    cache: &mut KeyCache,
    fetch: &JwksFetch,
    auth: Option<&str>,
    query: &str,
) -> http::Response<Vec<u8>> {
    let policy = Policy {
        routes: None,
        enforce: false,
    };
    let request = Forwarded {
        query,
        method: None,
        uri: None,
    };
    let mut step = handle_validate(cache, auth);
    if let Step::Fetch(wanted) = &step {
        step = keys_fetched(cache, wanted, fetch);
    }
    let reply = match step {
        Step::Reply(reply) => reply,
        Step::Fetch(_) => panic!("fetched twice"),
        Step::Read(signed) => {
            let claims = read(&signed);
            claims_read(&policy, request, &signed, claims).response
        }
    };
    reply.to_http()
}

fn unreachable_issuer() -> JwksFetch {
    JwksFetch::Unreachable("connection refused".to_string())
}

fn validate(auth: Option<&str>, query: &str) -> http::Response<Vec<u8>> {
    run(&mut seeded(), &unreachable_issuer(), auth, query)
}

// --- Token extraction (rejected before JWT validation) ---

#[test]
fn no_auth_header_returns_401() {
    let resp = validate(None, "");
    assert_eq!(resp.status(), StatusCode::UNAUTHORIZED);
    assert_eq!(body(&resp), "missing bearer token");
}

#[test]
fn wrong_auth_scheme_returns_401() {
    let resp = validate(Some("Basic abc123"), "");
    assert_eq!(resp.status(), StatusCode::UNAUTHORIZED);
    assert_eq!(body(&resp), "missing bearer token");
}

#[test]
fn empty_bearer_returns_401() {
    let resp = validate(Some("Bearer "), "");
    assert_eq!(resp.status(), StatusCode::UNAUTHORIZED);
    assert_eq!(body(&resp), "invalid bearer token");
}

#[test]
fn oversized_token_returns_401() {
    let tok = format!("Bearer {}", "x".repeat(4097));
    let resp = validate(Some(&tok), "");
    assert_eq!(resp.status(), StatusCode::UNAUTHORIZED);
    assert_eq!(body(&resp), "invalid bearer token");
}

#[test]
fn token_length_is_counted_in_bytes() {
    assert_eq!(bearer_token(None), Err(BearerError::Missing));
    assert_eq!(bearer_token(Some("bearer x")), Err(BearerError::Missing));
    assert_eq!(bearer_token(Some("Bearer")), Err(BearerError::Missing));
    assert_eq!(bearer_token(Some("Bearer  x")), Ok(" x"));
    let longest = "x".repeat(4096);
    assert_eq!(bearer_token(Some(&bearer(&longest))), Ok(longest.as_str()));
    let wide = "\u{e4}".repeat(2048);
    assert_eq!(bearer_token(Some(&bearer(&wide))), Ok(wide.as_str()));
    let too_wide = "\u{e4}".repeat(2049);
    assert_eq!(
        bearer_token(Some(&bearer(&too_wide))),
        Err(BearerError::Invalid)
    );
}

// --- JWT validation ---

#[test]
fn valid_jwt_no_scope_required_returns_200() {
    let tok = make_jwt("read");
    let resp = validate(Some(&bearer(&tok)), "");
    assert_eq!(resp.status(), StatusCode::OK);
    assert_eq!(body(&resp), "ok");
}

#[test]
fn malformed_jwt_returns_401() {
    let resp = validate(Some("Bearer not.a.jwt"), "");
    assert_eq!(resp.status(), StatusCode::UNAUTHORIZED);
    assert!(body(&resp).starts_with("failed to validate token: failed to decode JWT header: "));
}

#[test]
fn jwks_fetch_failure_returns_401() {
    let tok = make_jwt("read");
    let resp = run(
        &mut KeyCache::new(),
        &unreachable_issuer(),
        Some(&bearer(&tok)),
        "",
    );
    assert_eq!(resp.status(), StatusCode::UNAUTHORIZED);
    assert_eq!(
        body(&resp),
        "failed to validate token: failed to fetch JWKS: connection refused"
    );
}

#[test]
fn jwks_endpoint_is_fetched_and_key_cached() {
    let mut cache = KeyCache::new();
    let published = JwksFetch::Body(fixture().jwks_json.into_bytes());

    let tok = make_jwt("read");
    let resp = run(&mut cache, &published, Some(&bearer(&tok)), "");
    assert_eq!(resp.status(), StatusCode::OK);

    // Second call must hit the cache.
    let tok2 = make_jwt("read");
    assert!(matches!(
        handle_validate(&cache, Some(&bearer(&tok2))),
        Step::Read(_)
    ));
    let resp2 = run(&mut cache, &unreachable_issuer(), Some(&bearer(&tok2)), "");
    assert_eq!(resp2.status(), StatusCode::OK);
}

#[test]
fn token_names_the_key_to_fetch() {
    let tok = make_jwt("read");
    match handle_validate(&KeyCache::new(), Some(&bearer(&tok))) {
        Step::Fetch(wanted) => {
            assert_eq!(wanted.token, tok);
            assert_eq!(wanted.kid, TEST_KID);
            assert_eq!(wanted.alg, Algorithm::EdDSA);
        }
        _ => panic!("no fetch"),
    }
}

#[test]
fn token_without_kid_returns_401() {
    let exp = now() + 3600;
    let tok = sign(
        &format!(r#"{{"exp":{exp}}}"#),
        &Header::new(Algorithm::EdDSA),
    );
    let resp = validate(Some(&bearer(&tok)), "");
    assert_eq!(resp.status(), StatusCode::UNAUTHORIZED);
    assert_eq!(
        body(&resp),
        "failed to validate token: JWT header missing 'kid' field"
    );
}

#[test]
fn token_of_another_signer_returns_401() {
    let tok = make_jwt("read");
    let mut cache = KeyCache::new();
    let published = JwksFetch::Body(fixture_of(7).jwks_json.into_bytes());
    let resp = run(&mut cache, &published, Some(&bearer(&tok)), "");
    assert_eq!(resp.status(), StatusCode::UNAUTHORIZED);
    assert_eq!(
        body(&resp),
        "failed to validate token: failed to decode and verify JWT: InvalidSignature"
    );
}

#[test]
fn token_of_another_algorithm_returns_401() {
    let mut header = Header::new(Algorithm::HS256);
    header.kid = Some(TEST_KID.to_string());
    let exp = now() + 3600;
    let claims: Value = serde_json::from_str(&format!(r#"{{"exp":{exp}}}"#)).unwrap();
    let tok = encode(&header, &claims, &EncodingKey::from_secret(b"secret")).unwrap();
    let resp = validate(Some(&bearer(&tok)), "");
    assert_eq!(resp.status(), StatusCode::UNAUTHORIZED);
    assert_eq!(
        body(&resp),
        "failed to validate token: failed to decode and verify JWT: InvalidAlgorithm"
    );
}

#[test]
fn expiry_and_start_are_looked_at_with_leeway() {
    let status = |claims: String| validate(Some(&bearer(&sign(&claims, &header()))), "").status();
    let n = now();
    assert_eq!(
        status(format!(r#"{{"exp":{}}}"#, n - 60)),
        StatusCode::UNAUTHORIZED
    );
    assert_eq!(status(format!(r#"{{"exp":{}}}"#, n - 3)), StatusCode::OK);
    assert_eq!(
        status(format!(r#"{{"exp":{},"nbf":{}}}"#, n + 3600, n + 60)),
        StatusCode::UNAUTHORIZED
    );
    assert_eq!(
        status(format!(r#"{{"exp":{},"nbf":{}}}"#, n + 3600, n + 3)),
        StatusCode::OK
    );
    // the audience is not looked at
    assert_eq!(
        status(format!(r#"{{"exp":{},"aud":["somebody"]}}"#, n + 3600)),
        StatusCode::OK
    );
}

#[test]
fn expired_token_is_signed_but_not_timely() {
    let n = now();
    let key = fixture().decoding_key;
    let check = |tok: &str| check_signature(tok, &key, Algorithm::EdDSA);
    let verify = |tok: &str| verify_token(tok, &key, Algorithm::EdDSA);
    let refused = |text: &str| Err(TokenError::Verify(text.to_string()));

    let expired = sign(&format!(r#"{{"exp":{}}}"#, n - 60), &header());
    assert_eq!(check(&expired), Ok(()));
    assert_eq!(verify(&expired), refused("ExpiredSignature"));

    let early = sign(
        &format!(r#"{{"exp":{},"nbf":{}}}"#, n + 3600, n + 60),
        &header(),
    );
    assert_eq!(check(&early), Ok(()));
    assert_eq!(verify(&early), refused("ImmatureSignature"));

    let timeless = sign("{}", &header());
    assert_eq!(check(&timeless), Ok(()));
    assert_eq!(verify(&timeless), refused("Missing required claim: exp"));

    let good = make_jwt("read");
    assert_eq!(check(&good), Ok(()));
    assert_eq!(verify(&good), Ok(()));
}

#[test]
fn claims_that_nobody_reads_may_hold_any_bytes() {
    let mut claims = format!(r#"{{"exp":{},"scope":"read","note":""#, now() + 3600).into_bytes();
    claims.extend_from_slice(b"\xff\xfe\"}");
    assert!(String::from_utf8(claims.clone()).is_err());
    let tok = sign_bytes(&claims);
    assert_eq!(
        check_signature(&tok, &fixture().decoding_key, Algorithm::EdDSA),
        Ok(())
    );
    let resp = validate(Some(&bearer(&tok)), "scope=read");
    assert_eq!(resp.status(), StatusCode::OK);
    let resp = validate(Some(&bearer(&tok)), "scope=write");
    assert_eq!(resp.status(), StatusCode::FORBIDDEN);
}

#[test]
fn reading_tells_what_is_wrong_with_claims() {
    let key = fixture().decoding_key;
    for claims in ["5", "[1]", "not json", "", r#"{"exp":1"#] {
        let tok = sign_bytes(claims.as_bytes());
        // the signature holds, whatever it is a signature of
        assert_eq!(check_signature(&tok, &key, Algorithm::EdDSA), Ok(()));
        let signed = match handle_validate(&seeded(), Some(&bearer(&tok))) {
            Step::Read(signed) => signed,
            _ => panic!("not read"),
        };
        let cause = read(&signed).unwrap_err();
        assert!(cause.starts_with("JSON error: "));
        let resp = validate(Some(&bearer(&tok)), "");
        assert_eq!(resp.status(), StatusCode::UNAUTHORIZED);
        assert_eq!(
            body(&resp),
            format!("failed to validate token: failed to decode and verify JWT: {cause}")
        );
        // nor does a reading that finds nothing wrong let it through
        let policy = Policy {
            routes: None,
            enforce: false,
        };
        let request = Forwarded {
            query: "",
            method: None,
            uri: None,
        };
        let outcome = claims_read(&policy, request, &signed, Ok(None));
        assert_eq!(outcome.response.status, Status::Unauthorized);
    }
}

#[test]
fn token_with_unreadable_header_is_not_signed() {
    let message = format!(
        "{}.{}",
        URL_SAFE_NO_PAD.encode("{"),
        URL_SAFE_NO_PAD.encode("{}")
    );
    let signature = crypto::sign(
        message.as_bytes(),
        &fixture().encoding_key,
        Algorithm::EdDSA,
    )
    .unwrap();
    let tok = format!("{message}.{signature}");
    let refused = check_signature(&tok, &fixture().decoding_key, Algorithm::EdDSA);
    assert!(matches!(refused, Err(TokenError::Verify(text)) if text.starts_with("JSON error: ")));
}

#[test]
fn errors_of_verification() {
    let json = || {
        JwtError::from(serde_json::from_str::<Value>("").unwrap_err())
    };
    let forged = || JwtError::from(ErrorKind::InvalidSignature);
    let readable = || {
        Ok(TokenHeader {
            kid: None,
            alg: Algorithm::EdDSA,
        })
    };
    let refused = Err(TokenError::Verify("InvalidSignature".to_string()));
    assert_eq!(accept(Ok(())), Ok(()));
    assert_eq!(accept(Err(forged())), refused);
    assert_eq!(accept_signature(&readable(), Ok(())), Ok(()));
    assert_eq!(accept_signature(&readable(), Err(json())), Ok(()));
    assert_eq!(accept_signature(&readable(), Err(forged())), refused);
    assert!(accept_signature(&Err(json()), Err(json())).is_err());
}

#[test]
fn claims_that_cannot_be_read_return_401() {
    let tok = make_jwt("read");
    let signed = match handle_validate(&seeded(), Some(&bearer(&tok))) {
        Step::Read(signed) => signed,
        _ => panic!("not signed"),
    };
    let policy = Policy {
        routes: None,
        enforce: false,
    };
    let request = Forwarded {
        query: "",
        method: None,
        uri: None,
    };
    let outcome = claims_read(
        &policy,
        request,
        &signed,
        Err("JSON error: missing field `exp`".to_string()),
    );
    assert_eq!(
        outcome,
        Outcome {
            response: text_response(
                Status::Unauthorized,
                "failed to validate token: failed to decode and verify JWT: \
                 JSON error: missing field `exp`"
            ),
            report: None,
        }
    );
}

#[test]
fn headers_are_read() {
    assert_eq!(
        require_key_id(Ok(TokenHeader {
            kid: Some("k".to_string()),
            alg: Algorithm::RS256
        })),
        Ok(("k".to_string(), Algorithm::RS256))
    );
    assert_eq!(
        require_key_id(Ok(TokenHeader {
            kid: None,
            alg: Algorithm::RS256
        })),
        Err(TokenError::NoKeyId)
    );
    assert_eq!(
        read_header(&make_jwt("a")),
        Ok((TEST_KID.to_string(), Algorithm::EdDSA))
    );
    assert_eq!(
        read_header("x"),
        Err(TokenError::Header("InvalidToken".to_string()))
    );
}

#[test]
fn single_steps() {
    let key = fixture().decoding_key;
    assert!(matches!(
        after_signature("t", key.clone(), Algorithm::EdDSA, Ok(())),
        Step::Read(signed) if signed.token == "t" && signed.alg == Algorithm::EdDSA
    ));
    assert!(matches!(
        after_signature("t", key.clone(), Algorithm::EdDSA, Err(TokenError::NoKeyId)),
        Step::Reply(reply) if reply == refuse(&TokenError::NoKeyId)
    ));
    assert!(matches!(
        after_key(
            "t",
            Algorithm::EdDSA,
            Err(KeyError::NotFound("k".to_string()))
        ),
        Step::Reply(reply) if reply.body
            == "failed to validate token: key not found in JWKS for kid: k"
    ));
    assert!(matches!(
        after_header(&KeyCache::new(), "t", Ok(("k".to_string(), Algorithm::ES256))),
        Step::Fetch(wanted) if wanted.token == "t" && wanted.kid == "k"
    ));
    assert!(matches!(
        after_header(&seeded(), "t", Err(TokenError::Header("x".to_string()))),
        Step::Reply(reply) if reply.body
            == "failed to validate token: failed to decode JWT header: x"
    ));
}

#[test]
fn scopes_come_from_claims() {
    let timely = || Ok(());
    assert_eq!(
        token_scopes(Ok(Some("a b".to_string())), timely()),
        Ok("a b".to_string())
    );
    assert_eq!(token_scopes(Ok(None), timely()), Ok(String::new()));
    let late = || Err(TokenError::Verify("ExpiredSignature".to_string()));
    let refused = TextResponse {
        status: Status::Unauthorized,
        body: "failed to validate token: failed to decode and verify JWT: ExpiredSignature"
            .to_string(),
    };
    assert_eq!(token_scopes(Ok(None), late()), Err(refused));
    // what is wrong with the claims comes before the clock
    assert_eq!(
        token_scopes(Err("x".to_string()), late()).unwrap_err().body,
        "failed to validate token: failed to decode and verify JWT: x"
    );
}

#[test]
fn conclusion_follows_scopes() {
    let policy = Policy {
        routes: None,
        enforce: true,
    };
    let request = Forwarded {
        query: "scope=a",
        method: None,
        uri: None,
    };
    let status = |scopes| conclude(&policy, request, scopes).response.status;
    assert_eq!(status(Ok("b a".to_string())), Status::Success);
    assert_eq!(status(Ok("b".to_string())), Status::Forbidden);
    assert_eq!(
        status(Err(refuse(&TokenError::NoKeyId))),
        Status::Unauthorized
    );
}

// --- Scope checking ---

#[test]
fn token_with_matching_scope_returns_200() {
    let tok = make_jwt("read write");
    let resp = validate(Some(&bearer(&tok)), "scope=read");
    assert_eq!(resp.status(), StatusCode::OK);
}

#[test]
fn token_satisfying_one_of_multiple_required_scopes_returns_200() {
    let tok = make_jwt("write");
    let resp = validate(Some(&bearer(&tok)), "scope=read&scope=write");
    assert_eq!(resp.status(), StatusCode::OK);
}

#[test]
fn token_missing_required_scope_returns_403() {
    let tok = make_jwt("read");
    let resp = validate(Some(&bearer(&tok)), "scope=admin");
    assert_eq!(resp.status(), StatusCode::FORBIDDEN);
    assert_eq!(body(&resp), "insufficient scope");
}

#[test]
fn empty_scope_param_value_returns_403() {
    let tok = make_jwt("");
    let resp = validate(Some(&bearer(&tok)), "scope=");
    assert_eq!(resp.status(), StatusCode::FORBIDDEN);
}

#[test]
fn non_scope_query_params_are_ignored() {
    let tok = make_jwt("read");
    let resp = validate(Some(&bearer(&tok)), "foo=bar&scope=read&baz=qux");
    assert_eq!(resp.status(), StatusCode::OK);
}

// --- text_response helper ---

#[test]
fn text_response_sets_status_and_body() {
    let resp = text_response(Status::Forbidden, "denied").to_http();
    assert_eq!(resp.status(), StatusCode::FORBIDDEN);
    assert_eq!(body(&resp), "denied");
    assert_eq!(resp.headers().get("content-type").unwrap(), "text/plain");
}

#[test]
fn status_codes() {
    assert_eq!(Status::Success.code(), 200);
    assert_eq!(Status::Unauthorized.code(), 401);
    assert_eq!(Status::Forbidden.code(), 403);
    assert_eq!(Status::NotFound.code(), 404);
}

#[test]
fn paths_that_need_no_token() {
    let health = response("/healthz").unwrap().to_http();
    assert_eq!(health.status(), StatusCode::OK);
    assert_eq!(body(&health), "ok");
    assert!(response("/validate").is_none());
    for path in ["/", "", "/validate/", "/Healthz"] {
        let unknown = response(path).unwrap().to_http();
        assert_eq!(unknown.status(), StatusCode::NOT_FOUND);
        assert_eq!(body(&unknown), "not found");
    }
}
