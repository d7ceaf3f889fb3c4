use dockpot::state::{
    is_bare_digest, jwks_url, refreshes_on, running_container, state_changes, well_known_url,
    JwtClaims, NotifEvent, OidcMetadata, UpdateProgress,
};

fn pairs(ps: &[(&str, &str)]) -> Vec<(String, String)> {
    ps.iter().map(|(k, v)| (k.to_string(), v.to_string())).collect()
}

#[test]
fn discovery_urls() {
    assert_eq!(well_known_url("https://id.example.com//"), "https://id.example.com/.well-known/openid-configuration");
    assert_eq!(jwks_url("https://id.example.com"), "https://id.example.com/.well-known/jwks.json");
}

#[test]
fn state_change_notifications() {
    let previous = pairs(&[("web", "running"), ("db", "running"), ("gone", "exited")]);
    let current = pairs(&[("web", "exited"), ("db", "running"), ("new", "created")]);
    let (events, remembered) = state_changes(&previous, &current);
    assert_eq!(events, pairs(&[("web", "running → exited")]));
    assert_eq!(remembered, current);
    let (events, _) = state_changes(&pairs(&[("web", "")]), &pairs(&[("web", "running")]));
    assert!(events.is_empty());
    let (_, remembered) = state_changes(&pairs(&[]), &pairs(&[("a", "x"), ("a", "y")]));
    assert_eq!(remembered, pairs(&[("a", "y")]));
}

#[test]
fn running_entries() {
    let e = running_container(
        Some(vec!["/web".into()]),
        Some("sha256:abc".into()),
        Some("id1".into()),
        Some("img".into()),
        Some("nginx:1".into()),
    )
    .unwrap();
    assert_eq!(e, ("web".to_string(), "nginx:1".to_string(), "id1".to_string(), Some("img".to_string())));
    let e = running_container(Some(vec!["/web".into()]), Some("sha256:abc".into()), Some("i".into()), None, None).unwrap();
    assert_eq!(e.1, "sha256:abc");
    let e = running_container(Some(vec!["web".into()]), Some("redis".into()), Some("i".into()), None, Some("x".into())).unwrap();
    assert_eq!(e.1, "redis");
    assert!(running_container(Some(vec![]), Some("r".into()), Some("i".into()), None, None).is_none());
    assert!(running_container(None, Some("r".into()), Some("i".into()), None, None).is_none());
    assert!(running_container(Some(vec!["a".into()]), None, Some("i".into()), None, None).is_none());
    assert!(is_bare_digest("sha256:0"));
    assert!(!is_bare_digest("nginx"));
}

#[test]
fn refresh_actions() {
    for a in ["start", "stop", "die", "kill", "pause", "unpause", "restart", "create", "destroy", "rename", "update"] {
        assert!(refreshes_on(a));
    }
    assert!(!refreshes_on("exec_start"));
    assert!(!refreshes_on("attach"));
}

#[test]
fn plain_records() {
    let c = JwtClaims { sub: "s".into(), email: None, name: None, exp: 1, iat: 0, iss: "i".into() };
    assert_eq!(c.exp - c.iat, 1);
    let m = OidcMetadata {
        authorization_endpoint: "a".into(),
        token_endpoint: "t".into(),
        userinfo_endpoint: "u".into(),
        issuer: "i".into(),
        jwks_uri: "j".into(),
    };
    assert_eq!(m.jwks_uri, "j");
    let p = UpdateProgress { container: "c".into(), status: "s".into(), done: true, error: None };
    assert!(p.done && p.error.is_none());
    let n = NotifEvent { container: "c".into(), status: "a → b".into(), timestamp: "t".into() };
    assert_eq!(n.status, "a → b");
}
