//! Sessions, the OIDC login flow and access to requests.
use vstd::prelude::*;

use crate::containers::{lookup, lookup_pair};
use crate::convert::{opt_view, pairs_view};
use crate::state::JwtClaims;
use crate::text::{
    chars_of, eq_str, ends_with_str, lemma_first_unique, push_str,
    slice_chars, split_char, split_chars, split_once, split_once_char, starts_with_str, string_of,
    trim, trim_chars,
};

verus! {

// ───── Session claims ─────

/// How long a session lasts, in seconds.
pub const SESSION_TTL: usize = 86400;

/// The claims of the session token carried by the `session` cookie.
pub struct SessionClaims {
    pub sub: String,
    pub email: Option<String>,
    pub name: Option<String>,
    pub exp: usize,
    pub iat: usize,
    pub last_active: usize,
}

/// The query of the OIDC callback.
pub struct CallbackParams {
    pub code: String,
    pub state: String,
}

/// An error of the login flow, answered with `400 Bad Request`.
pub struct AuthError {
    pub message: String,
}

impl AuthError {
    /// An error with the given message.
    pub fn new(message: &str) -> (r: AuthError)
        ensures
            r.message@ == message@,
    {
        AuthError { message: string_of(chars_of(message).as_slice()) }
    }
}

/// The session opened at `now` for the user an identity token names: it
/// carries the user's identity, starts and was last active at `now`, and
/// expires a day later.
pub fn session_claims(jwt: JwtClaims, now: usize) -> (r: SessionClaims)
    requires
        now + SESSION_TTL <= usize::MAX,
    ensures
        r.sub == jwt.sub,
        r.email == jwt.email,
        r.name == jwt.name,
        r.iat == now,
        r.last_active == now,
        r.exp == now + SESSION_TTL,
{
    SessionClaims {
        sub: jwt.sub,
        email: jwt.email,
        name: jwt.name,
        exp: now + SESSION_TTL,
        iat: now,
        last_active: now,
    }
}

// ───── Cookies ─────

/// The token of the first `;`-separated part of a `Cookie` header that,
/// trimmed, starts with `session=`: what follows that prefix.
pub open spec fn first_session_part(parts: Seq<Seq<char>>) -> Option<Seq<char>>
    decreases parts.len(),
{
    if parts.len() == 0 {
        None
    } else if "session="@.is_prefix_of(trim(parts[0])) {
        Some(trim(parts[0]).skip("session="@.len() as int))
    } else {
        first_session_part(parts.drop_first())
    }
}

/// The session token a `Cookie` header carries.
pub open spec fn session_token(header: Seq<char>) -> Option<Seq<char>> {
    first_session_part(split_char(header, ';'))
}

/// Reads the session token out of a `Cookie` header.
pub fn session_from_cookie(header: &str) -> (r: Option<String>)
    ensures
        opt_view(r) == session_token(header@),
{
    let hc = chars_of(header);
    let parts = split_chars(hc.as_slice(), ';');
    let ghost ps = split_char(header@, ';');
    let prefix = chars_of("session=");
    let mut i: usize = 0;
    proof {
        assert(parts@.map_values(|v: Vec<char>| v@) == ps);
        assert(ps.skip(0) =~= ps);
    }
    while i < parts.len()
        invariant
            i <= parts@.len(),
            parts@.map_values(|v: Vec<char>| v@) == ps,
            ps == split_char(header@, ';'),
            prefix@ == "session="@,
            first_session_part(ps) == first_session_part(ps.skip(i as int)),
        decreases parts@.len() - i,
    {
        proof {
            assert(ps[i as int] == parts@[i as int]@);
            assert(ps.skip(i as int)[0] == ps[i as int]);
            assert(ps.skip(i as int).drop_first() =~= ps.skip(i + 1));
        }
        let t = trim_chars(parts[i].as_slice());
        if starts_with_str(t.as_slice(), "session=") {
            let v = slice_chars(t.as_slice(), prefix.len(), t.len());
            proof {
                assert(t@ == trim(ps[i as int]));
                assert(v@ =~= t@.skip("session="@.len() as int));
                assert(ps.skip(i as int).len() > 0);
                assert(first_session_part(ps.skip(i as int)) == Some(v@));
            }
            let res = string_of(v.as_slice());
            return Some(res);
        }
        i = i + 1;
    }
    proof {
        assert(ps.skip(i as int) =~= Seq::<Seq<char>>::empty());
    }
    None
}

/// The `Set-Cookie` value that opens a session.
pub open spec fn session_cookie_text(token: Seq<char>) -> Seq<char> {
    "session="@ + token + "; HttpOnly; Secure; SameSite=Lax; Path=/; Max-Age=86400"@
}

/// The `Set-Cookie` header value that stores a session token for a day.
pub fn session_cookie(token: &str) -> (r: String)
    ensures
        r@ == session_cookie_text(token@),
{
    let mut out = chars_of("session=");
    push_str(&mut out, token);
    push_str(&mut out, "; HttpOnly; Secure; SameSite=Lax; Path=/; Max-Age=86400");
    string_of(out.as_slice())
}

/// The `Set-Cookie` header value that ends a session.
pub fn logout_cookie() -> (r: String)
    ensures
        r@ == "session=; HttpOnly; Secure; SameSite=Lax; Path=/; Max-Age=0"@,
{
    string_of(chars_of("session=; HttpOnly; Secure; SameSite=Lax; Path=/; Max-Age=0").as_slice())
}

/// The `Set-Cookie` value that stores an access token.
pub open spec fn token_cookie_text(token: Seq<char>) -> Seq<char> {
    "token="@ + token + "; Path=/; HttpOnly; SameSite=Lax; Max-Age=86400"@
}

/// The `Set-Cookie` header value that stores an access token for a day.
pub fn token_cookie(token: &str) -> (r: String)
    ensures
        r@ == token_cookie_text(token@),
{
    let mut out = chars_of("token=");
    push_str(&mut out, token);
    push_str(&mut out, "; Path=/; HttpOnly; SameSite=Lax; Max-Age=86400");
    string_of(out.as_slice())
}

// ───── Access to requests ─────

/// Paths served without a session: the index, the health check, the two
/// login endpoints, the bundled assets and static files.
pub open spec fn public_path(p: Seq<char>) -> bool {
    ||| p == "/"@
    ||| p == "/api/health"@
    ||| p == "/api/auth/login"@
    ||| p == "/api/auth/callback"@
    ||| "/assets/"@.is_prefix_of(p)
    ||| ".html"@.is_suffix_of(p)
    ||| ".js"@.is_suffix_of(p)
    ||| ".css"@.is_suffix_of(p)
    ||| ".png"@.is_suffix_of(p)
    ||| ".ico"@.is_suffix_of(p)
    ||| ".svg"@.is_suffix_of(p)
    ||| ".woff2"@.is_suffix_of(p)
    ||| ".woff"@.is_suffix_of(p)
    ||| ".ttf"@.is_suffix_of(p)
}

/// Whether a request path is served without a session.
pub fn is_public_path(path: &str) -> (r: bool)
    ensures
        r == public_path(path@),
{
    let p = chars_of(path);
    let s = p.as_slice();
    eq_str(s, "/") || eq_str(s, "/api/health") || eq_str(s, "/api/auth/login") || eq_str(
        s,
        "/api/auth/callback",
    ) || starts_with_str(s, "/assets/") || ends_with_str(s, ".html") || ends_with_str(s, ".js")
        || ends_with_str(s, ".css") || ends_with_str(s, ".png") || ends_with_str(s, ".ico")
        || ends_with_str(s, ".svg") || ends_with_str(s, ".woff2") || ends_with_str(s, ".woff")
        || ends_with_str(s, ".ttf")
}

/// What becomes of a request before any token is checked.
pub enum Access {
    /// The path is public: pass the request on.
    Public,
    /// The signing secret is not configured: answer `500`.
    MissingSecret,
    /// No session cookie: answer `401`.
    NoSession,
    /// Check this session token.
    Verify(String),
}

/// The session token of an optional `Cookie` header.
pub open spec fn header_token(cookie_header: Option<Seq<char>>) -> Option<Seq<char>> {
    match cookie_header {
        Some(h) => session_token(h),
        None => None,
    }
}

/// The decision for a request to `path`, where `dev_mode` says whether the
/// server runs without authentication (no OIDC issuer), `secret_known`
/// whether the signing secret is configured and `cookie_header` is the
/// `Cookie` header, if any: in dev mode every request passes; otherwise
/// public paths pass, then a missing secret is a server error, then the
/// session cookie is required.
pub fn request_access(
    path: &str,
    dev_mode: bool,
    secret_known: bool,
    cookie_header: Option<&str>,
) -> (r: Access)
    ensures
        dev_mode ==> r is Public,
        !dev_mode && public_path(path@) ==> r is Public,
        !dev_mode && !public_path(path@) && !secret_known ==> r is MissingSecret,
        !dev_mode && !public_path(path@) && secret_known ==> (match header_token(
            (match cookie_header {
                Some(h) => Some(h@),
                None => None,
            }),
        ) {
            Some(t) => (r matches Access::Verify(v) && v@ == t),
            None => r is NoSession,
        }),
{
    if dev_mode {
        return Access::Public;
    }
    if is_public_path(path) {
        return Access::Public;
    }
    if !secret_known {
        return Access::MissingSecret;
    }
    match cookie_header {
        Some(h) => match session_from_cookie(h) {
            Some(t) => Access::Verify(t),
            None => Access::NoSession,
        },
        None => Access::NoSession,
    }
}

// ───── Encodings ─────

/// Bytes that `application/x-www-form-urlencoded` leaves as they are:
/// `*`, `-`, `.`, `_`, ASCII digits and letters.
pub open spec fn form_unchanged(b: u8) -> bool {
    b == 42 || b == 45 || b == 46 || (48 <= b <= 57) || (65 <= b <= 90) || b == 95 || (97 <= b
        <= 122)
}

/// An upper-case hexadecimal digit.
pub open spec fn hex_upper(d: int) -> char {
    if d < 10 {
        (48 + d) as char
    } else {
        (55 + d) as char
    }
}

/// One byte, form-encoded: unchanged, `+` for a space, else `%XX`.
pub open spec fn form_byte(b: u8) -> Seq<char> {
    if form_unchanged(b) {
        seq![b as char]
    } else if b == 32 {
        seq!['+']
    } else {
        seq!['%', hex_upper((b / 16) as int), hex_upper((b % 16) as int)]
    }
}

/// A byte string, form-encoded byte by byte.
pub open spec fn form_encoded(bytes: Seq<u8>) -> Seq<char>
    decreases bytes.len(),
{
    if bytes.len() == 0 {
        Seq::empty()
    } else {
        form_byte(bytes[0]) + form_encoded(bytes.drop_first())
    }
}

/// Calls `url::form_urlencoded::byte_serialize` on the UTF-8 bytes of `s`
/// and collects the pieces. The contract states the crate's encoding as
/// its source shows it: the bytes `*-._`, digits and ASCII letters stay,
/// a space becomes `+`, any other byte becomes `%` and two upper-case
/// hexadecimal digits.
#[verifier::external_body]
pub fn url_encode(s: &str) -> (r: String)
    ensures
        r@ == form_encoded(vstd::utf8::encode_utf8(s@)),
{
    url::form_urlencoded::byte_serialize(s.as_bytes()).collect()
}

/// The character of the URL-safe base64 alphabet for a 6-bit value.
pub open spec fn b64_char(i: int) -> char {
    if i < 26 {
        (65 + i) as char
    } else if i < 52 {
        (71 + i) as char
    } else if i < 62 {
        (i - 4) as char
    } else if i == 62 {
        '-'
    } else {
        '_'
    }
}

/// URL-safe base64 without padding: each 3 bytes give 4 characters, a
/// final 1 or 2 bytes give 2 or 3.
pub open spec fn base64_url(d: Seq<u8>) -> Seq<char>
    decreases d.len(),
{
    if d.len() == 0 {
        Seq::empty()
    } else if d.len() == 1 {
        seq![b64_char((d[0] / 4) as int), b64_char((d[0] % 4) * 16)]
    } else if d.len() == 2 {
        seq![
            b64_char((d[0] / 4) as int),
            b64_char((d[0] % 4) * 16 + (d[1] / 16) as int),
            b64_char((d[1] % 16) * 4),
        ]
    } else {
        seq![
            b64_char((d[0] / 4) as int),
            b64_char((d[0] % 4) * 16 + (d[1] / 16) as int),
            b64_char((d[1] % 16) * 4 + (d[2] / 64) as int),
            b64_char((d[2] % 64) as int),
        ] + base64_url(d.skip(3))
    }
}

/// Calls `Engine::encode` of `base64::engine::general_purpose::URL_SAFE_NO_PAD`.
/// The contract states RFC 4648 base64 with the URL-safe alphabet
/// (`-` and `_` for 62 and 63) and no padding, as the crate documents it.
/// The input is bounded so that the crate's length computation cannot
/// overflow.
#[verifier::external_body]
fn base64_url_encode(data: &[u8]) -> (r: String)
    requires
        data@.len() <= usize::MAX / 4,
    ensures
        r@ == base64_url(data@),
{
    base64::Engine::encode(&base64::engine::general_purpose::URL_SAFE_NO_PAD, data)
}

/// The SHA-256 digest of a byte string.
pub uninterp spec fn sha256(data: Seq<u8>) -> Seq<u8>;

/// Calls `sha2::Sha256::digest`. The contract names the result and states
/// that a digest has 32 bytes; the hash function itself is not restated.
#[verifier::external_body]
fn sha256_digest(data: &[u8]) -> (r: Vec<u8>)
    ensures
        r@ == sha256(data@),
        r@.len() == 32,
{
    <sha2::Sha256 as sha2::Digest>::digest(data).to_vec()
}

/// The PKCE code challenge of a verifier: the URL-safe base64 of the
/// SHA-256 digest of its UTF-8 bytes.
pub open spec fn code_challenge(verifier: Seq<char>) -> Seq<char> {
    base64_url(sha256(vstd::utf8::encode_utf8(verifier)))
}

/// Computes the PKCE `S256` code challenge of a code verifier.
pub fn pkce_challenge(verifier: &str) -> (r: String)
    ensures
        r@ == code_challenge(verifier@),
        r@.len() == 43,
{
    let bytes = verifier.as_bytes();
    let digest = sha256_digest(bytes);
    proof {
        law_base64_url(digest@);
    }
    base64_url_encode(digest.as_slice())
}

// ───── Login ─────

/// The authorization request URL of the OIDC provider.
pub open spec fn login_url(
    endpoint: Seq<char>,
    client_id: Seq<char>,
    redirect_url: Seq<char>,
    state: Seq<char>,
    challenge: Seq<char>,
) -> Seq<char> {
    endpoint + "?response_type=code&client_id="@ + client_id + "&redirect_uri="@ + form_encoded(
        vstd::utf8::encode_utf8(redirect_url),
    ) + "&scope=openid%20email%20profile&state="@ + state + "&code_challenge="@ + challenge
        + "&code_challenge_method=S256"@
}

/// Builds the authorization request URL: code flow, the client id, the
/// form-encoded redirect URL, the `openid email profile` scope, the state
/// and the `S256` code challenge.
pub fn authorization_url(
    endpoint: &str,
    client_id: &str,
    redirect_url: &str,
    state: &str,
    challenge: &str,
) -> (r: String)
    ensures
        r@ == login_url(endpoint@, client_id@, redirect_url@, state@, challenge@),
{
    let redirect = url_encode(redirect_url);
    let mut out = chars_of(endpoint);
    push_str(&mut out, "?response_type=code&client_id=");
    push_str(&mut out, client_id);
    push_str(&mut out, "&redirect_uri=");
    push_str(&mut out, redirect.as_str());
    push_str(&mut out, "&scope=openid%20email%20profile&state=");
    push_str(&mut out, state);
    push_str(&mut out, "&code_challenge=");
    push_str(&mut out, challenge);
    push_str(&mut out, "&code_challenge_method=S256");
    string_of(out.as_slice())
}

/// A character of a hyphenated lower-case UUID.
pub open spec fn uuid_char(c: char) -> bool {
    ('0' <= c && c <= '9') || ('a' <= c && c <= 'f') || c == '-'
}

/// Calls `uuid::Uuid::new_v4` and formats the result. The contract states
/// only what holds of every outcome: the hyphenated form has 36
/// lower-case hexadecimal digits and hyphens. Which UUID comes out is left
/// open, as it is random.
#[verifier::external_body]
fn random_uuid() -> (r: String)
    ensures
        r@.len() == 36,
        forall|i: int| 0 <= i < r@.len() ==> uuid_char(#[trigger] r@[i]),
{
    uuid::Uuid::new_v4().to_string()
}

/// The start of a login: where to send the browser, and the state and
/// code verifier to remember until the callback.
pub struct LoginStart {
    pub url: String,
    pub state: String,
    pub code_verifier: String,
}

/// Starts a login with a fresh random state and code verifier (two UUIDs
/// in a row): the URL carries the state and the verifier's challenge.
pub fn start_login(endpoint: &str, client_id: &str, redirect_url: &str) -> (r: LoginStart)
    ensures
        r.url@ == login_url(
            endpoint@,
            client_id@,
            redirect_url@,
            r.state@,
            code_challenge(r.code_verifier@),
        ),
        r.state@.len() == 36,
        forall|i: int| 0 <= i < r.state@.len() ==> uuid_char(#[trigger] r.state@[i]),
        r.code_verifier@.len() == 72,
        forall|i: int| 0 <= i < r.code_verifier@.len() ==> uuid_char(#[trigger] r.code_verifier@[i]),
{
    let a = random_uuid();
    let b = random_uuid();
    let mut v = chars_of(a.as_str());
    push_str(&mut v, b.as_str());
    proof {
        assert(v@ == a@ + b@);
        assert forall|i: int| 0 <= i < v@.len() implies uuid_char(#[trigger] v@[i]) by {
            if i < 36 {
                assert(v@[i] == a@[i]);
            } else {
                assert(v@[i] == b@[i - 36]);
            }
        }
    }
    let code_verifier = string_of(v.as_slice());
    let state = random_uuid();
    let challenge = pkce_challenge(code_verifier.as_str());
    let url = authorization_url(endpoint, client_id, redirect_url, state.as_str(), challenge.as_str());
    LoginStart { url, state, code_verifier }
}

/// Query of the login endpoint: the page to return to afterwards.
pub struct LoginQuery {
    pub redirect: Option<String>,
}

impl LoginQuery {
    /// The page to return to, empty when none is asked for.
    pub fn redirect_page(&self) -> (r: String)
        ensures
            r@ == (match self.redirect {
                Some(p) => p@,
                None => Seq::<char>::empty(),
            }),
    {
        match &self.redirect {
            Some(p) => p.clone(),
            None => {
                let e = String::new();
                proof {
                    assert(e@ =~= Seq::<char>::empty());
                }
                e
            },
        }
    }
}

// ───── Remembered login state ─────

/// The state remembered for a login: the state value, followed by `:` and
/// the page to return to when there is one.
pub open spec fn remembered_state(state: Seq<char>, redirect: Seq<char>) -> Seq<char> {
    if redirect.len() == 0 {
        state
    } else {
        state + ":"@ + redirect
    }
}

/// The state to remember for a login that should return to `redirect`.
pub fn remember_state(state: &str, redirect: &str) -> (r: String)
    ensures
        r@ == remembered_state(state@, redirect@),
{
    let mut out = chars_of(state);
    let rc = chars_of(redirect);
    if rc.len() == 0 {
        return string_of(out.as_slice());
    }
    push_str(&mut out, ":");
    push_str(&mut out, redirect);
    string_of(out.as_slice())
}

/// The page a remembered state returns to: what follows its first `:`,
/// or nothing.
pub open spec fn return_page(remembered: Seq<char>) -> Seq<char> {
    match split_once(remembered, ':') {
        Some(p) => p.1,
        None => Seq::empty(),
    }
}

/// Where the browser goes after a login: the remembered page, or `/`.
pub open spec fn login_target(remembered: Seq<char>) -> Seq<char> {
    if return_page(remembered).len() == 0 {
        "/"@
    } else {
        return_page(remembered)
    }
}

/// Where the browser goes after the login whose remembered state is
/// `remembered`.
pub fn redirect_target(remembered: &str) -> (r: String)
    ensures
        r@ == login_target(remembered@),
{
    let rc = chars_of(remembered);
    match split_once_char(rc.as_slice(), ':') {
        Some(p) => {
            if p.1.len() == 0 {
                string_of(chars_of("/").as_slice())
            } else {
                string_of(p.1.as_slice())
            }
        },
        None => string_of(chars_of("/").as_slice()),
    }
}

// ───── Callback ─────

/// What the OIDC callback's query asks for: an error the provider
/// reported, then a missing code, then a missing state, else the code
/// and the state.
pub open spec fn callback_request(q: Seq<(Seq<char>, Seq<char>)>) -> Result<
    (Seq<char>, Seq<char>),
    Seq<char>,
> {
    match lookup(q, "error"@) {
        Some(e) => Err(
            "OIDC provider returned an error: "@ + e + " ("@ + (match lookup(
                q,
                "error_description"@,
            ) {
                Some(d) => d,
                None => "Unknown error"@,
            }) + ")"@,
        ),
        None => match lookup(q, "code"@) {
            None => Err("Missing authorization code in callback"@),
            Some(code) => match lookup(q, "state"@) {
                None => Err("Missing state parameter"@),
                Some(state) => Ok((code, state)),
            },
        },
    }
}

/// Reads the code and the state out of the callback's query parameters.
pub fn callback_query(q: &Vec<(String, String)>) -> (r: Result<CallbackParams, String>)
    ensures
        match callback_request(pairs_view(q@)) {
            Ok(p) => r matches Ok(c) && c.code@ == p.0 && c.state@ == p.1,
            Err(e) => r matches Err(m) && m@ == e,
        },
{
    match lookup_pair(q, "error") {
        Some(e) => {
            let desc = match lookup_pair(q, "error_description") {
                Some(d) => d,
                None => string_of(chars_of("Unknown error").as_slice()),
            };
            let mut out = chars_of("OIDC provider returned an error: ");
            push_str(&mut out, e.as_str());
            push_str(&mut out, " (");
            push_str(&mut out, desc.as_str());
            push_str(&mut out, ")");
            Err(string_of(out.as_slice()))
        },
        None => match lookup_pair(q, "code") {
            None => Err(string_of(chars_of("Missing authorization code in callback").as_slice())),
            Some(code) => match lookup_pair(q, "state") {
                None => Err(string_of(chars_of("Missing state parameter").as_slice())),
                Some(state) => Ok(CallbackParams { code, state }),
            },
        },
    }
}

/// What a token endpoint's answer gives: a non-2xx status is an error
/// that quotes the provider's `error` and `error_description` (with
/// `unknown` and `no description` for missing ones); a 2xx answer
/// without the token is an error too.
pub open spec fn token_outcome(
    status: u16,
    error: Option<Seq<char>>,
    description: Option<Seq<char>>,
    token: Option<Seq<char>>,
    error_prefix: Seq<char>,
    missing: Seq<char>,
) -> Result<Seq<char>, Seq<char>> {
    if !(200 <= status <= 299) {
        Err(
            error_prefix + (match error {
                Some(e) => e,
                None => "unknown"@,
            }) + " ("@ + (match description {
                Some(d) => d,
                None => "no description"@,
            }) + ")"@,
        )
    } else {
        match token {
            Some(t) => Ok(t),
            None => Err(missing),
        }
    }
}

fn token_from(
    status: u16,
    error: Option<String>,
    description: Option<String>,
    token: Option<String>,
    error_prefix: &str,
    missing: &str,
) -> (r: Result<String, String>)
    ensures
        match token_outcome(
            status,
            opt_view(error),
            opt_view(description),
            opt_view(token),
            error_prefix@,
            missing@,
        ) {
            Ok(t) => r matches Ok(v) && v@ == t,
            Err(e) => r matches Err(m) && m@ == e,
        },
{
    if status < 200 || status > 299 {
        let e = match error {
            Some(e) => e,
            None => string_of(chars_of("unknown").as_slice()),
        };
        let d = match description {
            Some(d) => d,
            None => string_of(chars_of("no description").as_slice()),
        };
        let mut out = chars_of(error_prefix);
        push_str(&mut out, e.as_str());
        push_str(&mut out, " (");
        push_str(&mut out, d.as_str());
        push_str(&mut out, ")");
        return Err(string_of(out.as_slice()));
    }
    match token {
        Some(t) => Ok(t),
        None => Err(string_of(chars_of(missing).as_slice())),
    }
}

/// The identity token out of a token endpoint's answer, given its HTTP
/// status and its `error`, `error_description` and `id_token` fields.
pub fn id_token_from(
    status: u16,
    error: Option<String>,
    description: Option<String>,
    id_token: Option<String>,
) -> (r: Result<String, String>)
    ensures
        match token_outcome(
            status,
            opt_view(error),
            opt_view(description),
            opt_view(id_token),
            "Token endpoint error: "@,
            "No id_token in token response"@,
        ) {
            Ok(t) => r matches Ok(v) && v@ == t,
            Err(e) => r matches Err(m) && m@ == e,
        },
{
    token_from(
        status,
        error,
        description,
        id_token,
        "Token endpoint error: ",
        "No id_token in token response",
    )
}

/// The access token out of a token endpoint's answer, given its HTTP
/// status and its `error`, `error_description` and `access_token` fields.
pub fn access_token_from(
    status: u16,
    error: Option<String>,
    description: Option<String>,
    access_token: Option<String>,
) -> (r: Result<String, String>)
    ensures
        match token_outcome(
            status,
            opt_view(error),
            opt_view(description),
            opt_view(access_token),
            "Token endpoint returned error: "@,
            "No access_token in token response"@,
        ) {
            Ok(t) => r matches Ok(v) && v@ == t,
            Err(e) => r matches Err(m) && m@ == e,
        },
{
    token_from(
        status,
        error,
        description,
        access_token,
        "Token endpoint returned error: ",
        "No access_token in token response",
    )
}

// ───── Signing keys ─────

/// A text that URL-safe base64 without padding produces from some bytes.
pub open spec fn b64_text(t: Seq<char>) -> bool {
    exists|b: Seq<u8>| #[trigger] base64_url(b) == t
}

/// Calls `Engine::decode` of `base64::engine::general_purpose::URL_SAFE_NO_PAD`.
/// The engine decodes canonically (padding refused, stray trailing bits
/// refused), so the contract claims that decoding succeeds exactly on the
/// texts that encoding produces, and that the decoded bytes encode back to
/// the text.
#[verifier::external_body]
fn base64_url_decode(text: &str) -> (r: Option<Vec<u8>>)
    ensures
        r is Some <==> b64_text(text@),
        r matches Some(b) ==> base64_url(b@) == text@,
{
    base64::Engine::decode(&base64::engine::general_purpose::URL_SAFE_NO_PAD, text).ok()
}

/// The RSA public key of a JWKS entry, from its base64url-encoded modulus
/// `n` and exponent `e`: present exactly when both are given and both are
/// URL-safe base64 texts, and then the bytes they encode.
pub fn rsa_components(n: Option<String>, e: Option<String>) -> (r: Option<(Vec<u8>, Vec<u8>)>)
    ensures
        r is Some <==> (n matches Some(nt) && e matches Some(et) && b64_text(nt@) && b64_text(
            et@,
        )),
        r matches Some(k) ==> n matches Some(nt) && e matches Some(et) && base64_url(k.0@)
            == nt@ && base64_url(k.1@) == et@,
{
    match (n, e) {
        (Some(nt), Some(et)) => match (base64_url_decode(nt.as_str()), base64_url_decode(
            et.as_str(),
        )) {
            (Some(nb), Some(eb)) => Some((nb, eb)),
            _ => None,
        },
        _ => None,
    }
}

// ───── Laws ─────

/// A login returns to the page it was started for, or to `/` when none
/// was given, whenever the state value holds no `:` (a UUID never does).
pub proof fn law_login_returns(state: Seq<char>, redirect: Seq<char>)
    requires
        !state.contains(':'),
    ensures
        return_page(remembered_state(state, redirect)) == redirect,
        login_target(remembered_state(state, redirect)) == (if redirect.len() == 0 {
            "/"@
        } else {
            redirect
        }),
{
    let m = remembered_state(state, redirect);
    reveal_strlit(":");
    if redirect.len() > 0 {
        assert(m[state.len() as int] == ':');
        assert(crate::text::is_first(m, ':', state.len() as int)) by {
            assert forall|j: int| 0 <= j < state.len() implies m[j] != ':' by {
                assert(m[j] == state[j]);
            }
        }
        lemma_first_unique(m, ':', state.len() as int);
        assert(m.contains(':'));
        assert(m.skip(state.len() as int + 1) =~= redirect);
    }
}

/// The characters a form-encoded text is made of: ASCII letters and
/// digits, `*`, `-`, `.`, `_`, `+` and `%`.
pub open spec fn form_safe(c: char) -> bool {
    ('0' <= c && c <= '9') || ('A' <= c && c <= 'Z') || ('a' <= c && c <= 'z') || c == '*' || c
        == '-' || c == '.' || c == '_' || c == '+' || c == '%'
}

/// A form-encoded text holds no character that would end or split a query
/// parameter: only ASCII letters and digits and `*-._+%`.
pub proof fn law_form_encoded_safe(bytes: Seq<u8>)
    ensures
        forall|i: int|
            0 <= i < form_encoded(bytes).len() ==> form_safe(#[trigger] form_encoded(bytes)[i]),
    decreases bytes.len(),
{
    if bytes.len() > 0 {
        law_form_encoded_safe(bytes.drop_first());
        let b = bytes[0];
        let head = form_byte(b);
        assert forall|j: int| 0 <= j < head.len() implies form_safe(#[trigger] head[j]) by {
            if form_unchanged(b) {
                assert(head[j] == b as char);
            } else if b != 32 {
                let hi = (b / 16) as int;
                let lo = (b % 16) as int;
                assert(0 <= hi < 16 && 0 <= lo < 16);
            }
        }
        let rest = form_encoded(bytes.drop_first());
        assert(form_encoded(bytes) == head + rest);
        assert forall|i: int| 0 <= i < form_encoded(bytes).len() implies form_safe(
            #[trigger] form_encoded(bytes)[i],
        ) by {
            if i < head.len() {
                assert(form_encoded(bytes)[i] == head[i]);
            } else {
                assert(form_encoded(bytes)[i] == rest[i - head.len()]);
            }
        }
    }
}

/// A character of the URL-safe base64 alphabet.
pub open spec fn b64_safe(c: char) -> bool {
    ('0' <= c && c <= '9') || ('A' <= c && c <= 'Z') || ('a' <= c && c <= 'z') || c == '-' || c
        == '_'
}

/// URL-safe base64 without padding turns `n` bytes into `(4n + 2) / 3`
/// characters of the URL-safe alphabet.
pub proof fn law_base64_url(d: Seq<u8>)
    ensures
        base64_url(d).len() == (4 * d.len() + 2) / 3,
        forall|i: int| 0 <= i < base64_url(d).len() ==> b64_safe(#[trigger] base64_url(d)[i]),
    decreases d.len(),
{
    if d.len() >= 3 {
        law_base64_url(d.skip(3));
        let head = seq![
            b64_char((d[0] / 4) as int),
            b64_char((d[0] % 4) * 16 + (d[1] / 16) as int),
            b64_char((d[1] % 16) * 4 + (d[2] / 64) as int),
            b64_char((d[2] % 64) as int),
        ];
        let rest = base64_url(d.skip(3));
        assert(base64_url(d) == head + rest);
        assert forall|i: int| 0 <= i < base64_url(d).len() implies b64_safe(
            #[trigger] base64_url(d)[i],
        ) by {
            if i >= 4 {
                assert(base64_url(d)[i] == rest[i - 4]);
            }
        }
    }
}

/// The session cookie that a login sets is read back as the same token,
/// both from the `Set-Cookie` value and from the `Cookie` header a browser
/// returns, for any token without `;` and without trailing white space (a
/// signed token has neither).
pub proof fn law_session_cookie_roundtrip(token: Seq<char>)
    requires
        !token.contains(';'),
        token.len() > 0 ==> !crate::text::is_ws(token.last()),
    ensures
        session_token("session="@ + token) == Some(token),
        session_token(session_cookie_text(token)) == Some(token),
{
    reveal_strlit("session=");
    reveal_strlit("; HttpOnly; Secure; SameSite=Lax; Path=/; Max-Age=86400");
    let part = "session="@ + token;
    assert(!part.contains(';')) by {
        assert forall|i: int| 0 <= i < part.len() implies part[i] != ';' by {
            if i >= 8 {
                assert(part[i] == token[i - 8]);
            }
        }
    }
    assert(crate::text::trim_start(part) == part);
    assert(crate::text::trim_end(part) == part) by {
        if token.len() > 0 {
            assert(part.last() == token.last());
        }
    }
    assert(part.skip(8) =~= token);
    assert(split_char(part, ';') == seq![part]);
    let whole = session_cookie_text(token);
    let i = part.len() as int;
    assert(whole[i] == ';');
    assert(crate::text::is_first(whole, ';', i)) by {
        assert forall|j: int| 0 <= j < i implies whole[j] != ';' by {
            assert(whole[j] == part[j]);
        }
    }
    lemma_first_unique(whole, ';', i);
    assert(whole.take(i) =~= part);
    let parts = split_char(whole, ';');
    assert(parts[0] == part);
}

} // verus!
