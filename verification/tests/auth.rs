use jsonwebtoken::jwk::JwkSet;
use table_tv::auth::{
    auth_request, auth0_config, bearer_token, jwks_fetch_error, jwks_parse_error, claims_from_decoded, email_from_claims, issuer_for_domain,
    kid_from_header, require_jwks, require_token, token_kid, Auth0Claims, AuthMeResponse, JwksCache,
};
use table_tv::error::ApiError;
use table_tv::users::UserDoc;

fn auth0_message(r: Result<String, ApiError>) -> String {
    match r {
        Err(ApiError::Auth0ClientError(m)) => m,
        other => panic!("unexpected {:?}", other),
    }
}

fn claims(email: Option<&str>) -> Auth0Claims {
    Auth0Claims {
        sub: "auth0|42".to_string(),
        email: email.map(|e| e.to_string()),
        exp: 0,
        iss: "https://t.auth0.com/".to_string(),
    }
}

#[test]
fn jwks_cache_normalizes_domain() {
    assert_eq!(
        JwksCache::new("tenant.auth0.com/").jwks_url(),
        "https://tenant.auth0.com/.well-known/jwks.json"
    );
    assert_eq!(
        JwksCache::new("http://localhost:3000//").jwks_url(),
        "http://localhost:3000/.well-known/jwks.json"
    );
    assert_eq!(
        JwksCache::new("https://t.eu.auth0.com").jwks_url(),
        "https://t.eu.auth0.com/.well-known/jwks.json"
    );
}

const JWKS: &str = r#"{"keys":[{"kty":"oct","kid":"k1","k":"c2VjcmV0"},{"kty":"oct","k":"b3RoZXI"},{"kty":"oct","kid":"bad","k":"!!!"},{"kty":"oct","kid":"k1","k":"!!!"}]}"#;

fn auth0_err<T>(r: Result<T, ApiError>) -> String {
    match r {
        Err(ApiError::Auth0ClientError(m)) => m,
        Err(other) => panic!("unexpected {:?}", other),
        Ok(_) => panic!("expected an error"),
    }
}

#[test]
fn jwks_cache_fetch_store_invalidate() {
    let mut cache = JwksCache::new("t.auth0.com");
    assert!(cache.needs_fetch("k1"));
    let set: JwkSet = serde_json::from_str(JWKS).unwrap();
    cache.store(set);
    assert!(!cache.needs_fetch("k1"));
    assert!(!cache.needs_fetch("bad"));
    // a key id the cached set lacks asks for a refresh
    assert!(cache.needs_fetch("missing"));
    // the first key with the id is used (the later "k1" would not convert)
    assert!(cache.decoding_key("k1").is_ok());
    assert_eq!(auth0_err(cache.decoding_key("missing")), "JWK not found for kid");
    assert!(auth0_err(cache.decoding_key("bad")).starts_with("Invalid JWK: "));
    cache.invalidate();
    assert!(cache.needs_fetch("k1"));
    assert_eq!(cache.jwks_url(), "https://t.auth0.com/.well-known/jwks.json");
}

#[test]
fn auth_request_checks_in_order() {
    let s = |v: &str| Some(v.to_string());
    let cache = JwksCache::new("d");
    match auth_request::<JwksCache>(None, s("d"), s("a"), None, s("Bearer t")) {
        Err(ApiError::BadRequest(m)) => assert_eq!(m, "Auth0 not configured"),
        _ => panic!("expected an error"),
    }
    match auth_request(Some(&cache), None, s("a"), None, None) {
        Err(ApiError::BadRequest(m)) => assert_eq!(m, "AUTH0_DOMAIN must be set"),
        _ => panic!("expected an error"),
    }
    assert!(matches!(
        auth_request(Some(&cache), s("d"), s("a"), None, s("Basic x")),
        Err(ApiError::InvalidCredentials)
    ));
    let (_, aud, iss, tok) =
        auth_request(Some(&cache), s("https://t.auth0.com/"), s("api"), s("cid"), s("Bearer abc")).unwrap();
    assert_eq!(aud, vec!["api", "cid"]);
    assert_eq!(iss, "https://t.auth0.com/");
    assert_eq!(tok, "abc");
}

#[test]
fn token_kid_reads_header() {
    // header {"alg":"HS256","kid":"k1"} and {"alg":"HS256"}, base64url
    let with_kid = "eyJhbGciOiJIUzI1NiIsImtpZCI6ImsxIn0.e30.sig";
    let without_kid = "eyJhbGciOiJIUzI1NiJ9.e30.sig";
    assert_eq!(token_kid(with_kid).unwrap(), "k1");
    assert_eq!(auth0_message(token_kid(without_kid)), "Token missing kid");
    assert!(auth0_message(token_kid("not-a-token")).starts_with("Invalid token header: "));
}

#[test]
fn kid_from_header_results() {
    assert_eq!(kid_from_header(Ok(Some("a".to_string()))).unwrap(), "a");
    assert_eq!(auth0_message(kid_from_header(Ok(None))), "Token missing kid");
    assert_eq!(auth0_message(kid_from_header(Err("InvalidToken".to_string()))), "Invalid token header: InvalidToken");
}

#[test]
fn auth0_config_values() {
    let s = |v: &str| Some(v.to_string());
    let (d, aud) = auth0_config(s("t.auth0.com"), s("api"), s("client")).unwrap();
    assert_eq!(d, "t.auth0.com");
    assert_eq!(aud, vec!["api", "client"]);
    let (_, aud) = auth0_config(s("d"), s(""), s("client")).unwrap();
    assert_eq!(aud, vec!["client"]);
    match auth0_config(None, s("api"), None) {
        Err(ApiError::BadRequest(m)) => assert_eq!(m, "AUTH0_DOMAIN must be set"),
        other => panic!("unexpected {:?}", other),
    }
    match auth0_config(s("d"), s(""), None) {
        Err(ApiError::BadRequest(m)) => {
            assert_eq!(m, "AUTH0_AUDIENCE or AUTH0_CLIENT_ID must be set for Auth0 login")
        }
        other => panic!("unexpected {:?}", other),
    }
}

#[test]
fn issuer_from_domain() {
    assert_eq!(issuer_for_domain("t.auth0.com"), "https://t.auth0.com/");
    assert_eq!(issuer_for_domain("https://t.auth0.com/"), "https://t.auth0.com/");
    assert_eq!(issuer_for_domain("https://https://t.auth0.com//"), "https://t.auth0.com/");
}

#[test]
fn bearer_token_prefix() {
    assert_eq!(bearer_token(Some("Bearer abc.def")), Some("abc.def".to_string()));
    assert_eq!(bearer_token(Some("bearer abc")), None);
    assert_eq!(bearer_token(Some("Basic xyz")), None);
    assert_eq!(bearer_token(None), None);
}

#[test]
fn email_fallback() {
    assert_eq!(email_from_claims(&claims(Some("a@b.c"))), "a@b.c");
    assert_eq!(email_from_claims(&claims(Some(""))), "auth0|42@auth0.local");
    assert_eq!(email_from_claims(&claims(None)), "auth0|42@auth0.local");
}

#[test]
fn decoded_claims_and_guards() {
    assert_eq!(claims_from_decoded(Ok(claims(None))).unwrap().sub, "auth0|42");
    match claims_from_decoded(Err("ExpiredSignature".to_string())) {
        Err(ApiError::Auth0ClientError(m)) => assert_eq!(m, "Invalid token: ExpiredSignature"),
        other => panic!("unexpected {:?}", other),
    }
    match require_jwks::<JwksCache>(None) {
        Err(ApiError::BadRequest(m)) => assert_eq!(m, "Auth0 not configured"),
        _ => panic!("expected an error"),
    }
    let cache = JwksCache::new("d");
    assert!(require_jwks(Some(&cache)).is_ok());
    assert!(matches!(require_token(None), Err(ApiError::InvalidCredentials)));
    assert_eq!(require_token(Some("t".to_string())).unwrap(), "t");
}

#[test]
fn auth_me_response_from_user() {
    let r = AuthMeResponse::from_user(UserDoc {
        auth0_sub: "s".to_string(),
        email: "e".to_string(),
        is_admin: true,
    });
    assert_eq!(r.sub, "s");
    assert_eq!(r.email, "e");
    assert!(r.is_admin);
}

#[test]
fn jwks_fetch_errors() {
    assert_eq!(jwks_fetch_error("timeout").to_string(), "Auth0 error: Failed to fetch JWKS: timeout");
    assert_eq!(jwks_parse_error("eof").response_body(), "Failed to parse JWKS: eof");
}
