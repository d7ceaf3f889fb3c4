//! Settings read from the process environment.
use vstd::prelude::*;

use crate::containers::{lookup, lookup_pair, parse_u16, parse_u16_spec};
use crate::convert::{opt_view, owned, pairs_view};
use crate::text::chars_of;

verus! {

/// The settings of the server. Paths are kept as text.
#[derive(Clone)]
pub struct Config {
    pub host: String,
    pub port: u16,
    pub data_dir: String,
    pub database_url: String,
    pub log_level: String,
    pub log_format: String,
    pub stacks_dir: String,
    pub templates_dir: String,
    pub oidc_issuer_url: Option<String>,
    pub oidc_client_id: Option<String>,
    pub oidc_client_secret: Option<String>,
    pub oidc_redirect_url: String,
}

/// The value of `key` in an environment listing, or `default`.
pub open spec fn env_or_spec(
    vars: Seq<(Seq<char>, Seq<char>)>,
    key: Seq<char>,
    default: Seq<char>,
) -> Seq<char> {
    match lookup(vars, key) {
        Some(v) => v,
        None => default,
    }
}

/// The value of `key` when it is set and not empty.
pub open spec fn env_optional_spec(vars: Seq<(Seq<char>, Seq<char>)>, key: Seq<char>) -> Option<
    Seq<char>,
> {
    match lookup(vars, key) {
        Some(v) => if v.len() > 0 {
            Some(v)
        } else {
            None
        },
        None => None,
    }
}

/// The port number in `key` when it parses, else `default`.
pub open spec fn env_or_parsed_spec(
    vars: Seq<(Seq<char>, Seq<char>)>,
    key: Seq<char>,
    default: u16,
) -> u16 {
    match lookup(vars, key) {
        Some(v) => match parse_u16_spec(v) {
            Some(p) => p,
            None => default,
        },
        None => default,
    }
}

/// The value of an environment variable, or `default` when it is unset.
pub fn env_or(vars: &Vec<(String, String)>, key: &str, default: &str) -> (r: String)
    ensures
        r@ == env_or_spec(pairs_view(vars@), key@, default@),
{
    match lookup_pair(vars, key) {
        Some(v) => v,
        None => owned(default),
    }
}

/// The value of an environment variable when it is set and not empty.
pub fn env_optional(vars: &Vec<(String, String)>, key: &str) -> (r: Option<String>)
    ensures
        opt_view(r) == env_optional_spec(pairs_view(vars@), key@),
{
    match lookup_pair(vars, key) {
        Some(v) => if v.as_str().is_empty() {
            None
        } else {
            Some(v)
        },
        None => None,
    }
}

/// A port number from the environment, or `default` when the variable is
/// unset or does not parse.
pub fn env_or_parsed(vars: &Vec<(String, String)>, key: &str, default: u16) -> (r: u16)
    ensures
        r == env_or_parsed_spec(pairs_view(vars@), key@, default),
{
    match lookup_pair(vars, key) {
        Some(v) => {
            let c = chars_of(v.as_str());
            match parse_u16(c.as_slice()) {
                Some(p) => p,
                None => default,
            }
        },
        None => default,
    }
}

impl Config {
    /// The settings that an environment listing gives, with the defaults
    /// of the server for what it leaves unset.
    pub fn load(vars: &Vec<(String, String)>) -> (r: Config)
        ensures
            r.host@ == env_or_spec(pairs_view(vars@), "HOST"@, "0.0.0.0"@),
            r.port == env_or_parsed_spec(pairs_view(vars@), "PORT"@, 3056),
            r.data_dir@ == env_or_spec(pairs_view(vars@), "DATA_DIR"@, "./data"@),
            r.database_url@ == env_or_spec(
                pairs_view(vars@),
                "DATABASE_URL"@,
                "./data/dockpot.db"@,
            ),
            r.log_level@ == env_or_spec(pairs_view(vars@), "RUST_LOG"@, "info"@),
            r.log_format@ == env_or_spec(pairs_view(vars@), "LOG_FORMAT"@, "pretty"@),
            r.stacks_dir@ == env_or_spec(pairs_view(vars@), "STACKS_DIR"@, "./data/stacks"@),
            r.templates_dir@ == env_or_spec(pairs_view(vars@), "TEMPLATES_DIR"@, "./templates"@),
            opt_view(r.oidc_issuer_url) == env_optional_spec(pairs_view(vars@), "OIDC_ISSUER_URL"@),
            opt_view(r.oidc_client_id) == env_optional_spec(pairs_view(vars@), "OIDC_CLIENT_ID"@),
            opt_view(r.oidc_client_secret) == env_optional_spec(
                pairs_view(vars@),
                "OIDC_CLIENT_SECRET"@,
            ),
            r.oidc_redirect_url@ == env_or_spec(
                pairs_view(vars@),
                "OIDC_REDIRECT_URL"@,
                "http://localhost:3056/auth/callback"@,
            ),
    {
        Config {
            host: env_or(vars, "HOST", "0.0.0.0"),
            port: env_or_parsed(vars, "PORT", 3056),
            data_dir: env_or(vars, "DATA_DIR", "./data"),
            database_url: env_or(vars, "DATABASE_URL", "./data/dockpot.db"),
            log_level: env_or(vars, "RUST_LOG", "info"),
            log_format: env_or(vars, "LOG_FORMAT", "pretty"),
            stacks_dir: env_or(vars, "STACKS_DIR", "./data/stacks"),
            templates_dir: env_or(vars, "TEMPLATES_DIR", "./templates"),
            oidc_issuer_url: env_optional(vars, "OIDC_ISSUER_URL"),
            oidc_client_id: env_optional(vars, "OIDC_CLIENT_ID"),
            oidc_client_secret: env_optional(vars, "OIDC_CLIENT_SECRET"),
            oidc_redirect_url: env_or(vars, "OIDC_REDIRECT_URL", "http://localhost:3056/auth/callback"),
        }
    }

    /// The address the server listens on: every IPv6 and IPv4 address when
    /// the host is `0.0.0.0`, else the host itself, with the port.
    pub fn bind_address(&self) -> (r: String)
        ensures
            r@ == (if self.host@ == "0.0.0.0"@ {
                "[::]"@
            } else {
                self.host@
            }) + ":"@ + crate::text::decimal(self.port as nat),
    {
        let hc = chars_of(self.host.as_str());
        let mut out = if crate::text::eq_str(hc.as_slice(), "0.0.0.0") {
            chars_of("[::]")
        } else {
            hc
        };
        crate::text::push_str(&mut out, ":");
        let digits = crate::text::decimal_chars(self.port as u64);
        crate::text::push_chars(&mut out, digits.as_slice());
        crate::text::string_of(out.as_slice())
    }

    /// Without an OIDC issuer the server runs without authentication.
    pub fn is_dev_mode(&self) -> (r: bool)
        ensures
            r == self.oidc_issuer_url.is_none(),
    {
        self.oidc_issuer_url.is_none()
    }
}

} // verus!
