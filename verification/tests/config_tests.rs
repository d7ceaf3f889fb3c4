use dockpot::config::{env_optional, env_or, env_or_parsed, Config};

fn vars(pairs: &[(&str, &str)]) -> Vec<(String, String)> {
    pairs.iter().map(|(k, v)| (k.to_string(), v.to_string())).collect()
}

fn config(issuer: Option<&str>) -> Config {
    Config {
        host: "0.0.0.0".into(),
        port: 3056,
        data_dir: "./data".into(),
        database_url: "./data/dockpot.db".into(),
        log_level: "info".into(),
        log_format: "pretty".into(),
        stacks_dir: "./data/stacks".into(),
        templates_dir: "./templates".into(),
        oidc_issuer_url: issuer.map(|s| s.to_string()),
        oidc_client_id: issuer.map(|_| "client-id".to_string()),
        oidc_client_secret: issuer.map(|_| "secret".to_string()),
        oidc_redirect_url: "http://localhost:3056/auth/callback".into(),
    }
}

#[test]
fn test_env_or_default() {
    assert_eq!(env_or(&vars(&[]), "UNSET_VAR", "def"), "def");
}

#[test]
fn test_env_or_value() {
    assert_eq!(env_or(&vars(&[("TST_ENV", "custom")]), "TST_ENV", "def"), "custom");
}

#[test]
fn test_env_or_parsed_default() {
    assert_eq!(env_or_parsed(&vars(&[]), "UNSET_PORT_X", 3056), 3056);
}

#[test]
fn test_env_or_parsed_value() {
    assert_eq!(env_or_parsed(&vars(&[("TEST_PORT", "8080")]), "TEST_PORT", 3056), 8080);
}

#[test]
fn test_env_or_parsed_invalid() {
    assert_eq!(env_or_parsed(&vars(&[("TEST_BAD", "abc")]), "TEST_BAD", 3056), 3056);
}

#[test]
fn test_env_optional_unset() {
    assert_eq!(env_optional(&vars(&[]), "OPT_UNSET"), None);
}

#[test]
fn test_env_optional_empty() {
    assert_eq!(env_optional(&vars(&[("OPT_EMPTY", "")]), "OPT_EMPTY"), None);
}

#[test]
fn test_env_optional_value() {
    assert_eq!(
        env_optional(&vars(&[("OPT_VAL", "hello")]), "OPT_VAL"),
        Some("hello".to_string())
    );
}

#[test]
fn test_is_dev_mode_true_when_no_issuer() {
    assert!(config(None).is_dev_mode());
}

#[test]
fn test_is_dev_mode_false_when_issuer_set() {
    assert!(!config(Some("https://auth.example.com")).is_dev_mode());
}

#[test]
fn load_uses_defaults_for_an_empty_environment() {
    let c = Config::load(&vars(&[]));
    assert_eq!(c.host, "0.0.0.0");
    assert_eq!(c.port, 3056);
    assert_eq!(c.data_dir, "./data");
    assert_eq!(c.database_url, "./data/dockpot.db");
    assert_eq!(c.log_level, "info");
    assert_eq!(c.log_format, "pretty");
    assert_eq!(c.stacks_dir, "./data/stacks");
    assert_eq!(c.templates_dir, "./templates");
    assert_eq!(c.oidc_issuer_url, None);
    assert_eq!(c.oidc_redirect_url, "http://localhost:3056/auth/callback");
    assert!(c.is_dev_mode());
}

#[test]
fn load_reads_the_environment() {
    let c = Config::load(&vars(&[
        ("HOST", "127.0.0.1"),
        ("PORT", "9000"),
        ("OIDC_ISSUER_URL", "https://id.example.com"),
        ("OIDC_CLIENT_ID", ""),
    ]));
    assert_eq!(c.host, "127.0.0.1");
    assert_eq!(c.port, 9000);
    assert_eq!(c.oidc_issuer_url, Some("https://id.example.com".to_string()));
    assert_eq!(c.oidc_client_id, None);
    assert!(!c.is_dev_mode());
}

#[test]
fn port_out_of_range_falls_back() {
    assert_eq!(env_or_parsed(&vars(&[("P", "70000")]), "P", 3056), 3056);
    assert_eq!(env_or_parsed(&vars(&[("P", "65535")]), "P", 3056), 65535);
    assert_eq!(env_or_parsed(&vars(&[("P", "-1")]), "P", 3056), 3056);
}

#[test]
fn bind_address_of_all_interfaces_uses_ipv6_any() {
    assert_eq!(config(None).bind_address(), "[::]:3056");
    let mut c = config(None);
    c.host = "127.0.0.1".into();
    c.port = 80;
    assert_eq!(c.bind_address(), "127.0.0.1:80");
}
