//! Token authentication: finding the credential a request presents, comparing it with a
//! locally held secret, deriving its digest, and the session cookie issued on login.

use crate::text::{chars_of, folds_to, folds_to_exec, has_prefix, has_prefix_exec, push_str, string_of_range};
use sha2::Digest;
use subtle::ConstantTimeEq;
use vstd::prelude::*;

verus! {

broadcast use vstd::utf8::encode_utf8_decode_utf8;

/// Name of the session cookie that carries a credential.
pub const TOKEN_COOKIE_NAME: &'static str = "oxigraph_gate_token";

/// Lifetime of the session cookie, in seconds (90 days).
pub const SESSION_MAX_AGE_SECS: i64 = 7776000;

/// Upstream base URL used when none is configured.
pub const DEFAULT_OXIGRAPH_URL: &'static str = "http://localhost:7878";

/// Blob directory used when none is configured.
pub const DEFAULT_FILES_DIR: &'static str = "../files";

/// Configuration of the gateway.
pub struct GateConfig {
    pub access_token: String,
    pub oxigraph_url: String,
    /// Whether cookies carry the Secure flag (requires HTTPS).
    pub secure_cookies: bool,
    /// Directory for blob storage.
    pub files_dir: String,
}

/// The login form: the credential the client typed.
pub struct LoginForm {
    pub token: String,
}

/// One request or response header, its name lower-case as the transport stores it.
pub struct HeaderField {
    pub name: String,
    pub value: String,
}

// ---------------------------------------------------------------------------------------------
// Constant-time comparison
// ---------------------------------------------------------------------------------------------

/// Relies on subtle's `ConstantTimeEq` for byte slices: 1 exactly when the slices have the
/// same length and the same bytes; the contents are compared in time independent of them.
#[verifier::external_body]
fn ct_eq_bytes(a: &[u8], b: &[u8]) -> (r: bool)
    ensures
        r == (a@ == b@),
{
    a.ct_eq(b).into()
}

/// Whether `a` and `b` are equal, compared in time that does not depend on where they
/// differ. Where the lengths differ a comparison of the same cost is still made.
pub fn constant_time_compare(a: &str, b: &str) -> (r: bool)
    ensures
        r == (a@ == b@),
{
    let a_bytes = a.as_bytes();
    let b_bytes = b.as_bytes();
    if a_bytes.len() != b_bytes.len() {
        let dummy = vec![0u8; a_bytes.len()];
        let _ = ct_eq_bytes(a_bytes, dummy.as_slice());
        proof {
            vstd::utf8::encode_utf8_decode_utf8(a@);
            vstd::utf8::encode_utf8_decode_utf8(b@);
        }
        return false;
    }
    let r = ct_eq_bytes(a_bytes, b_bytes);
    proof {
        vstd::utf8::encode_utf8_decode_utf8(a@);
        vstd::utf8::encode_utf8_decode_utf8(b@);
    }
    r
}

// ---------------------------------------------------------------------------------------------
// Finding the presented credential
// ---------------------------------------------------------------------------------------------

/// The value of the first header whose name is `lower_name`, ASCII case aside.
pub open spec fn header_value_of(headers: Seq<HeaderField>, lower_name: Seq<char>) -> Option<Seq<char>>
    decreases headers.len(),
{
    if headers.len() == 0 {
        None
    } else if folds_to(headers[0].name@, lower_name) {
        Some(headers[0].value@)
    } else {
        header_value_of(headers.drop_first(), lower_name)
    }
}

/// The value of the first header named `lower_name`, ASCII case aside.
pub fn header_value(headers: &[HeaderField], lower_name: &str) -> (r: Option<String>)
    ensures
        crate::json::opt_view(r) == header_value_of(headers@, lower_name@),
{
    let mut i: usize = 0;
    assert(headers@.subrange(0, headers@.len() as int) =~= headers@);
    while i < headers.len()
        invariant
            i <= headers@.len(),
            header_value_of(headers@, lower_name@) == header_value_of(
                headers@.subrange(i as int, headers@.len() as int),
                lower_name@,
            ),
        decreases headers@.len() - i,
    {
        let ghost rest = headers@.subrange(i as int, headers@.len() as int);
        assert(rest.drop_first() =~= headers@.subrange(i + 1, headers@.len() as int));
        let name = chars_of(headers[i].name.as_str());
        if folds_to_exec(name.as_slice(), lower_name) {
            return Some(headers[i].value.clone());
        }
        i = i + 1;
    }
    None
}

/// What follows `Bearer ` at the start of an authorization value.
pub open spec fn bearer_token(v: Seq<char>) -> Option<Seq<char>> {
    if has_prefix(v, "Bearer "@) {
        Some(v.subrange("Bearer "@.len() as int, v.len() as int))
    } else {
        None
    }
}

/// The credential carried by the headers: the access-token header, else the token of a
/// `Bearer` authorization header.
pub open spec fn header_token(headers: Seq<HeaderField>) -> Option<Seq<char>> {
    match header_value_of(headers, "x-access-token"@) {
        Some(v) => Some(v),
        None => match header_value_of(headers, "authorization"@) {
            Some(a) => bearer_token(a),
            None => None,
        },
    }
}

/// The credential carried by the headers: the `X-Access-Token` header, else the token of an
/// `Authorization: Bearer ...` header.
pub fn extract_token_from_header(headers: &[HeaderField]) -> (r: Option<String>)
    ensures
        crate::json::opt_view(r) == header_token(headers@),
{
    match header_value(headers, "x-access-token") {
        Some(v) => Some(v),
        None => match header_value(headers, "authorization") {
            Some(a) => {
                let v = chars_of(a.as_str());
                if has_prefix_exec(v.as_slice(), "Bearer ") {
                    let n = "Bearer ".unicode_len();
                    Some(string_of_range(v.as_slice(), n, v.len()))
                } else {
                    None
                }
            },
            None => None,
        },
    }
}

/// The one credential a request presents: from its headers, else its session cookie.
pub open spec fn presented_credential(headers: Seq<HeaderField>, cookie: Option<Seq<char>>) -> Option<Seq<char>> {
    match header_token(headers) {
        Some(t) => Some(t),
        None => cookie,
    }
}

/// The one credential a request presents: from its headers, else the value of its session
/// cookie.
pub fn candidate_credential(headers: &[HeaderField], session_cookie: Option<String>) -> (r: Option<String>)
    ensures
        crate::json::opt_view(r) == presented_credential(headers@, crate::json::opt_view(session_cookie)),
{
    match extract_token_from_header(headers) {
        Some(t) => Some(t),
        None => session_cookie,
    }
}

/// Whether the one credential the request presents (its headers first, else its session
/// cookie) is the locally held secret; compared in constant time.
pub fn validate_token(config: &GateConfig, headers: &[HeaderField], session_cookie: &Option<String>) -> (r: bool)
    ensures
        r == (presented_credential(headers@, crate::json::opt_view(*session_cookie)) == Some(
            config.access_token@,
        )),
{
    let cookie = match session_cookie {
        Some(c) => Some(c.clone()),
        None => None,
    };
    match candidate_credential(headers, cookie) {
        Some(token) => constant_time_compare(token.as_str(), config.access_token.as_str()),
        None => false,
    }
}

// ---------------------------------------------------------------------------------------------
// Credential digests
// ---------------------------------------------------------------------------------------------

/// The SHA-256 digest of `b`.
pub uninterp spec fn sha256_of(b: Seq<u8>) -> Seq<u8>;

/// Relies on sha2's `Sha256::digest`: the SHA-256 digest of the bytes, 32 bytes long.
#[verifier::external_body]
fn sha256(b: &[u8]) -> (r: Vec<u8>)
    ensures
        r@ == sha256_of(b@),
        r@.len() == 32,
{
    sha2::Sha256::digest(b).to_vec()
}

/// The lower-case hexadecimal digit for `d < 16`.
pub open spec fn hex_digit(d: int) -> char {
    if d < 10 {
        crate::text::digit_char(d)
    } else if d == 10 {
        'a'
    } else if d == 11 {
        'b'
    } else if d == 12 {
        'c'
    } else if d == 13 {
        'd'
    } else if d == 14 {
        'e'
    } else {
        'f'
    }
}

/// Two lower-case hexadecimal digits per byte, high half first.
pub open spec fn hex_of(b: Seq<u8>) -> Seq<char>
    decreases b.len(),
{
    if b.len() == 0 {
        Seq::empty()
    } else {
        hex_of(b.drop_last()) + seq![hex_digit(b.last() as int / 16), hex_digit(b.last() as int % 16)]
    }
}

/// Relies on hex::encode: two lower-case hexadecimal digits per byte, high half first.
#[verifier::external_body]
fn hex_encode(b: &[u8]) -> (r: String)
    ensures
        r@ == hex_of(b@),
{
    hex::encode(b)
}

/// The digest under which a credential is stored: SHA-256 of its UTF-8 bytes, in hex.
pub open spec fn credential_digest_of(credential: Seq<char>) -> Seq<char> {
    hex_of(sha256_of(vstd::utf8::encode_utf8(credential)))
}

/// The digest under which a credential is stored.
pub fn credential_digest(credential: &str) -> (r: String)
    ensures
        r@ == credential_digest_of(credential@),
{
    let d = sha256(credential.as_bytes());
    hex_encode(d.as_slice())
}

/// A fresh access token from 16 random bytes: 32 lower-case hexadecimal digits.
pub fn token_from_bytes(bytes: &[u8; 16]) -> (r: String)
    ensures
        r@ == hex_of(bytes@),
{
    hex_encode(bytes.as_slice())
}

// ---------------------------------------------------------------------------------------------
// Configuration
// ---------------------------------------------------------------------------------------------

/// A configured access token is used only if it is 32 hexadecimal digits.
pub open spec fn is_well_formed_token(s: Seq<char>) -> bool {
    s.len() == 32 && forall|i: int| 0 <= i < s.len() ==> crate::query::is_hex_digit(#[trigger] s[i])
}

/// Whether a configured access token is 32 hexadecimal digits.
pub fn access_token_is_well_formed(token: &str) -> (r: bool)
    ensures
        r == is_well_formed_token(token@),
{
    let v = chars_of(token);
    if v.len() != 32 {
        return false;
    }
    let mut i: usize = 0;
    while i < v.len()
        invariant
            i <= v@.len(),
            v@ == token@,
            forall|j: int| 0 <= j < i ==> crate::query::is_hex_digit(#[trigger] v@[j]),
        decreases v@.len() - i,
    {
        let c = v[i];
        if !(('0' <= c && c <= '9') || ('a' <= c && c <= 'f') || ('A' <= c && c <= 'F')) {
            return false;
        }
        i = i + 1;
    }
    true
}

/// Secure cookies are on unless the setting reads `false`, ASCII case aside.
pub open spec fn secure_cookies_of(setting: Option<Seq<char>>) -> bool {
    match setting {
        Some(v) => !folds_to(v, "false"@),
        None => true,
    }
}

/// Whether cookies carry the Secure flag, given the deployment's setting.
pub fn secure_cookies_from(setting: &Option<String>) -> (r: bool)
    ensures
        r == secure_cookies_of(crate::json::opt_view(*setting)),
{
    match setting {
        Some(v) => {
            let c = chars_of(v.as_str());
            !folds_to_exec(c.as_slice(), "false")
        },
        None => true,
    }
}

/// The text of the environment file written when a token is generated.
pub open spec fn env_file_text(token: Seq<char>, url: Seq<char>) -> Seq<char> {
    "ACCESS_TOKEN="@ + token + "\nOXIGRAPH_URL="@ + url + "\n"@
}

/// The text of the environment file that records a generated token and the upstream URL.
pub fn env_file_content(token: &str, oxigraph_url: &str) -> (r: String)
    ensures
        r@ == env_file_text(token@, oxigraph_url@),
{
    let mut s = String::new();
    push_str(&mut s, "ACCESS_TOKEN=");
    push_str(&mut s, token);
    push_str(&mut s, "\nOXIGRAPH_URL=");
    push_str(&mut s, oxigraph_url);
    push_str(&mut s, "\n");
    s
}

/// The configuration from the settings found in the environment, each `None` where unset.
/// `fresh_token` is used, and the second result is true, exactly when the configured token
/// is missing or not 32 hexadecimal digits; the caller then records it.
pub fn config_from_settings(
    access_token: Option<String>,
    oxigraph_url: Option<String>,
    secure_cookies: Option<String>,
    files_dir: Option<String>,
    fresh_token: String,
) -> (r: (GateConfig, bool))
    ensures
        r.1 == !(access_token is Some && is_well_formed_token(access_token->0@)),
        r.0.access_token@ == (if r.1 {
            fresh_token@
        } else {
            access_token->0@
        }),
        r.0.oxigraph_url@ == (match oxigraph_url {
            Some(u) => u@,
            None => DEFAULT_OXIGRAPH_URL@,
        }),
        r.0.secure_cookies == secure_cookies_of(crate::json::opt_view(secure_cookies)),
        r.0.files_dir@ == (match files_dir {
            Some(d) => d@,
            None => DEFAULT_FILES_DIR@,
        }),
{
    let secure = secure_cookies_from(&secure_cookies);
    let url = match oxigraph_url {
        Some(u) => u,
        None => String::from_str(DEFAULT_OXIGRAPH_URL),
    };
    let dir = match files_dir {
        Some(d) => d,
        None => String::from_str(DEFAULT_FILES_DIR),
    };
    let (token, generated) = match access_token {
        Some(t) => if access_token_is_well_formed(t.as_str()) {
            (t, false)
        } else {
            (fresh_token, true)
        },
        None => (fresh_token, true),
    };
    (GateConfig { access_token: token, oxigraph_url: url, secure_cookies: secure, files_dir: dir }, generated)
}

// ---------------------------------------------------------------------------------------------
// Login
// ---------------------------------------------------------------------------------------------

/// The session cookie issued on login.
pub struct SessionCookie {
    pub name: String,
    pub value: String,
    pub path: String,
    pub http_only: bool,
    pub same_site_strict: bool,
    pub max_age_secs: i64,
    pub secure: bool,
}

/// What a login attempt comes to.
pub enum LoginOutcome {
    /// Set this cookie and send the client on.
    Accepted(SessionCookie),
    /// Show the login form again, with an error.
    Rejected,
}

/// The outcome of a login with `form`: accepted when the credential equals the locally held
/// secret (compared in constant time) or is registered in the store (`registered`). The
/// cookie then carries the credential over the whole path space, HTTP-only, same-site strict,
/// for 90 days, Secure as configured.
pub fn login_outcome(config: &GateConfig, form: LoginForm, registered: bool) -> (r: LoginOutcome)
    ensures
        (r is Accepted) == (form.token@ == config.access_token@ || registered),
        r is Accepted ==> ({
            let c = r->Accepted_0;
            &&& c.name@ == TOKEN_COOKIE_NAME@
            &&& c.value@ == form.token@
            &&& c.path@ == "/"@
            &&& c.http_only
            &&& c.same_site_strict
            &&& c.max_age_secs == SESSION_MAX_AGE_SECS
            &&& c.secure == config.secure_cookies
        }),
{
    let matches_secret = constant_time_compare(form.token.as_str(), config.access_token.as_str());
    if matches_secret || registered {
        LoginOutcome::Accepted(
            SessionCookie {
                name: String::from_str(TOKEN_COOKIE_NAME),
                value: form.token,
                path: String::from_str("/"),
                http_only: true,
                same_site_strict: true,
                max_age_secs: SESSION_MAX_AGE_SECS,
                secure: config.secure_cookies,
            },
        )
    } else {
        LoginOutcome::Rejected
    }
}

} // verus!
