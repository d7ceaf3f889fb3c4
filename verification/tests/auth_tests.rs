use base64::Engine;
use dockpot::auth::{
    access_token_from, request_access, callback_query, id_token_from, is_public_path, logout_cookie,
    pkce_challenge, redirect_target, remember_state, rsa_components, session_claims,
    session_cookie, session_from_cookie, start_login, token_cookie, url_encode,
    authorization_url, AuthError, Access, SessionClaims, SESSION_TTL,
};
use dockpot::state::JwtClaims;
use sha2::Digest;

fn pairs(ps: &[(&str, &str)]) -> Vec<(String, String)> {
    ps.iter().map(|(k, v)| (k.to_string(), v.to_string())).collect()
}

#[test]
fn test_url_encode_normal() {
    assert_eq!(url_encode("hello"), "hello");
}

#[test]
fn test_url_encode_special_chars() {
    assert_eq!(url_encode("a b"), "a+b");
    assert_eq!(url_encode("a&b"), "a%26b");
    assert_eq!(
        url_encode("http://example.com/callback"),
        "http%3A%2F%2Fexample.com%2Fcallback"
    );
}

#[test]
fn url_encode_non_ascii_by_bytes() {
    assert_eq!(url_encode("é*-._~"), "%C3%A9*-._%7E");
}

#[test]
fn test_auth_error_new() {
    let err = AuthError::new("test error");
    assert_eq!(err.message, "test error");
}

#[test]
fn test_code_challenge_calculation() {
    let code_verifier = "test-verifier-123";
    let expected = {
        let mut hasher = sha2::Sha256::new();
        hasher.update(code_verifier.as_bytes());
        let digest = hasher.finalize();
        base64::engine::general_purpose::URL_SAFE_NO_PAD.encode(digest)
    };
    let challenge = pkce_challenge(code_verifier);
    assert_eq!(challenge, expected);
}

#[test]
fn pkce_challenge_known_value() {
    let c = pkce_challenge("test-verifier-123");
    assert_eq!(c, "zSNMHiBdtxNs8L9onqEnW-Xq5fuLcM7EksItq1aKBDY");
    assert_eq!(c.len(), 43);
}

#[test]
fn test_jwt_claims_to_session_claims_mapping() {
    let jwt = JwtClaims {
        sub: "user-oidc".into(),
        email: Some("oidc@example.com".into()),
        name: Some("OIDC User".into()),
        exp: 9999999999,
        iat: 1000000000,
        iss: "https://issuer.test".into(),
    };
    let now = 2000000000usize;
    let session: SessionClaims = session_claims(jwt, now);
    assert_eq!(session.sub, "user-oidc");
    assert_eq!(session.email.unwrap(), "oidc@example.com");
    assert_eq!(session.name.unwrap(), "OIDC User");
    assert_eq!(session.exp, now + 86400);
    assert_eq!(session.iat, now);
    assert_eq!(session.last_active, now);
}

#[test]
fn session_lasts_a_day() {
    let jwt = JwtClaims {
        sub: "u".into(),
        email: None,
        name: None,
        exp: 0,
        iat: 0,
        iss: String::new(),
    };
    let s = session_claims(jwt, 5);
    assert_eq!(s.exp - s.iat, SESSION_TTL);
    assert!(s.email.is_none() && s.name.is_none());
}

#[test]
fn session_cookie_round_trip() {
    let token = "eyJhbGciOiJIUzI1NiJ9.eyJzdWIiOiJ1In0.sig";
    let set = session_cookie(token);
    assert_eq!(
        set,
        format!("session={}; HttpOnly; Secure; SameSite=Lax; Path=/; Max-Age=86400", token)
    );
    assert_eq!(session_from_cookie(&set), Some(token.to_string()));
    assert_eq!(session_from_cookie(&format!("session={}", token)), Some(token.to_string()));
}

#[test]
fn session_cookie_among_others() {
    assert_eq!(
        session_from_cookie("theme=dark;  session=abc ; lang=es"),
        Some("abc".to_string())
    );
    assert_eq!(session_from_cookie("theme=dark; sessionx=abc"), None);
    assert_eq!(session_from_cookie(""), None);
    assert_eq!(session_from_cookie("session="), Some(String::new()));
    assert_eq!(session_from_cookie("a=1; session=x=y"), Some("x=y".to_string()));
}

#[test]
fn cookie_headers() {
    assert_eq!(logout_cookie(), "session=; HttpOnly; Secure; SameSite=Lax; Path=/; Max-Age=0");
    assert_eq!(token_cookie("t1"), "token=t1; Path=/; HttpOnly; SameSite=Lax; Max-Age=86400");
}

#[test]
fn public_paths() {
    for p in ["/", "/api/health", "/api/auth/login", "/api/auth/callback", "/assets/app.js", "/index.html", "/x.woff2", "/f.ttf"] {
        assert!(is_public_path(p), "{}", p);
    }
    for p in ["/api/stacks", "/api/auth/me", "/assets", "/logo.webp"] {
        assert!(!is_public_path(p), "{}", p);
    }
}

#[test]
fn access_decisions() {
    assert!(matches!(request_access("/", false, false, None), Access::Public));
    assert!(matches!(request_access("/api/stacks", false, false, Some("session=a")), Access::MissingSecret));
    assert!(matches!(request_access("/api/stacks", false, true, None), Access::NoSession));
    assert!(matches!(request_access("/api/stacks", false, true, Some("theme=dark")), Access::NoSession));
    match request_access("/api/stacks", false, true, Some("theme=dark; session=tok")) {
        Access::Verify(t) => assert_eq!(t, "tok"),
        _ => panic!("expected a token to verify"),
    }
}

#[test]
fn dev_mode_lets_every_request_through() {
    assert!(matches!(request_access("/api/stacks", true, false, None), Access::Public));
    assert!(matches!(request_access("/api/stacks", true, true, None), Access::Public));
    assert!(matches!(request_access("/api/auth/me", true, false, Some("session=tok")), Access::Public));
    assert!(matches!(request_access("/", true, true, Some("theme=dark")), Access::Public));
}

#[test]
fn authorization_url_layout() {
    let url = authorization_url(
        "https://id.example.com/authorize",
        "dockpot",
        "http://localhost:3056/auth/callback",
        "st",
        "ch",
    );
    assert_eq!(
        url,
        "https://id.example.com/authorize?response_type=code&client_id=dockpot&redirect_uri=http%3A%2F%2Flocalhost%3A3056%2Fauth%2Fcallback&scope=openid%20email%20profile&state=st&code_challenge=ch&code_challenge_method=S256"
    );
}

#[test]
fn start_login_carries_state_and_challenge() {
    let s = start_login("https://id/auth", "c", "http://r");
    assert_eq!(s.state.len(), 36);
    assert_eq!(s.code_verifier.len(), 72);
    assert!(s.state.chars().all(|c| c.is_ascii_hexdigit() || c == '-'));
    let expected = authorization_url("https://id/auth", "c", "http://r", &s.state, &pkce_challenge(&s.code_verifier));
    assert_eq!(s.url, expected);
    let other = start_login("https://id/auth", "c", "http://r");
    assert_ne!(s.state, other.state);
}

#[test]
fn remembered_state_round_trip() {
    let st = "67e55044-10b1-426f-9247-bb680e5fe0c8";
    assert_eq!(remember_state(st, ""), st);
    assert_eq!(redirect_target(&remember_state(st, "")), "/");
    let r = remember_state(st, "/stacks/1?tab=logs");
    assert_eq!(r, format!("{}:/stacks/1?tab=logs", st));
    assert_eq!(redirect_target(&r), "/stacks/1?tab=logs");
    assert_eq!(redirect_target(&remember_state(st, "http://x:1/")), "http://x:1/");
}

#[test]
fn callback_query_outcomes() {
    let e = callback_query(&pairs(&[("error", "access_denied")])).err().unwrap();
    assert_eq!(e, "OIDC provider returned an error: access_denied (Unknown error)");
    let e = callback_query(&pairs(&[("error", "x"), ("error_description", "denied"), ("code", "c")]))
        .err()
        .unwrap();
    assert_eq!(e, "OIDC provider returned an error: x (denied)");
    let e = callback_query(&pairs(&[("state", "s")])).err().unwrap();
    assert_eq!(e, "Missing authorization code in callback");
    let e = callback_query(&pairs(&[("code", "c")])).err().unwrap();
    assert_eq!(e, "Missing state parameter");
    let p = callback_query(&pairs(&[("state", "s"), ("code", "c")])).ok().unwrap();
    assert_eq!(p.code, "c");
    assert_eq!(p.state, "s");
}

#[test]
fn token_endpoint_answers() {
    assert_eq!(id_token_from(200, None, None, Some("tok".into())), Ok("tok".to_string()));
    assert_eq!(
        id_token_from(200, None, None, None),
        Err("No id_token in token response".to_string())
    );
    assert_eq!(
        id_token_from(400, Some("invalid_grant".into()), None, Some("tok".into())),
        Err("Token endpoint error: invalid_grant (no description)".to_string())
    );
    assert_eq!(
        access_token_from(500, None, Some("boom".into()), None),
        Err("Token endpoint returned error: unknown (boom)".to_string())
    );
    assert_eq!(
        access_token_from(299, None, None, None),
        Err("No access_token in token response".to_string())
    );
    assert_eq!(access_token_from(204, None, None, Some("a".into())), Ok("a".to_string()));
}

#[test]
fn jwks_components_decode() {
    let k = rsa_components(Some("AQAB".into()), Some("AQAB".into())).unwrap();
    assert_eq!(k.0, vec![1u8, 0, 1]);
    assert_eq!(k.1, vec![1u8, 0, 1]);
    assert!(rsa_components(Some("AQAB".into()), None).is_none());
    assert!(rsa_components(Some("!!".into()), Some("AQAB".into())).is_none());
    assert_eq!(rsa_components(Some("AQ".into()), Some("".into())), Some((vec![1u8], vec![])));
    assert!(rsa_components(Some("AR".into()), Some("AQAB".into())).is_none());
    assert!(rsa_components(Some("AQ==".into()), Some("AQAB".into())).is_none());
    assert!(rsa_components(Some("A".into()), Some("AQAB".into())).is_none());
}

#[test]
fn login_query_redirect_page() {
    let q = dockpot::auth::LoginQuery { redirect: Some("/stacks".into()) };
    assert_eq!(q.redirect_page(), "/stacks");
    let q = dockpot::auth::LoginQuery { redirect: None };
    assert_eq!(q.redirect_page(), "");
}
