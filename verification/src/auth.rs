//! Decision logic of the interactive login flow and of logout.
//!
//! The embedding binary owns every effect — the HTTP listener, the browser,
//! the validation and issuance requests, prompting, sleeping — and this
//! module owns every decision: how a callback's query parameters are
//! classified and recorded ([`handle_callback`]), what the polling loop does
//! next ([`oauth_step`]), which URLs and headers the requests use, under
//! which entry name a fresh key is persisted ([`persist_validated_key`]),
//! how keys are abbreviated for display ([`mask_api_key`]), and how logout
//! clears exactly one credential ([`logout`]).

use vstd::prelude::*;
use vstd::string::StrSliceExecFns;
use vstd::string::StringExecFns;
use crate::config::Config;
use crate::config::ConfigError;
use crate::config::EnvSnapshot;
use crate::config::ServerConfig;
use crate::config::ServerEntry;
use crate::config::entry_index;
use crate::config::entry_index_from;
use crate::config::has_entry;
use crate::config::has_url_match;
use crate::config::lemma_entry_index;
use crate::config::lemma_url_match_index;
use crate::config::opt_str_view;
use crate::config::opt_view;
use crate::config::url_match;
use crate::config::url_match_index;
use crate::config::url_match_index_from;
use crate::config::SpecResolved;
use crate::urls::normalize_server_url;
use crate::urls::normalize_url_spec;
use crate::urls::url_host_spec;
use crate::urls::valid_server_url;
use crate::urls::url_host;
use crate::utils::dec_str;
use crate::utils::lemma_dec_str_ascii;
use crate::utils::push_dec;
use crate::utils::str_eq;

verus! {

/// Wall-clock budget for one OAuth attempt, in milliseconds.
pub const OAUTH_TIMEOUT_MS: u64 = 300000;

/// Cadence at which the poller re-reads the shared state, in milliseconds.
pub const OAUTH_POLL_INTERVAL_MS: u64 = 100;

/// URL a fresh install logs in against when the store knows nothing at all.
pub const LOCAL_SERVER_URL: &'static str = "http://localhost:3000";

/// The display form of a key: first eight and last four characters
/// around an ellipsis when the key is long enough, a fixed marker otherwise.
/// The raw key never appears.
pub open spec fn abbreviated_key(k: Seq<char>) -> Seq<char> {
    if k.len() == 0 {
        "No API key provided"@
    } else if k.len() > 12 {
        k.subrange(0, 8) + "..."@ + k.subrange(k.len() - 4, k.len() as int)
    } else {
        "***"@
    }
}

/// Abbreviate a key for display.
pub fn mask_api_key(key: &str) -> (r: String)
    ensures
        r@ == abbreviated_key(key@),
{
    let n = key.unicode_len();
    if n == 0 {
        String::from_str("No API key provided")
    } else if n > 12 {
        let mut r = String::from_str(key.substring_char(0, 8));
        r.append("...");
        r.append(key.substring_char(n - 4, n));
        proof {
            assert(r@ =~= abbreviated_key(key@));
        }
        r
    } else {
        String::from_str("***")
    }
}

/// A server-issued API key starts with the fixed `rico_` prefix; anything
/// else delivered by a callback is a session token.
pub open spec fn is_api_key_spec(s: Seq<char>) -> bool {
    s.len() >= 5 && s.subrange(0, 5) == "rico_"@
}

/// Whether `s` is a server-issued API key rather than a session token.
pub fn is_api_key(s: &str) -> (r: bool)
    ensures
        r == is_api_key_spec(s@),
{
    let n = s.unicode_len();
    if n < 5 {
        return false;
    }
    str_eq(s.substring_char(0, 5), "rico_")
}

/// Shared outcome of one OAuth attempt: written by the callback responder,
/// read by the polling loop. The embedding binary guards it with its own
/// mutual exclusion; this library only decides what to record and read.
#[derive(Debug, Clone, PartialEq)]
pub struct AuthState {
    /// The callback has arrived.
    pub received_callback: bool,
    /// What the redirect delivered: an API key or a session token.
    pub payload: Option<String>,
    /// A server-reported error.
    pub error: Option<String>,
}

impl AuthState {
    /// The empty state a fresh listener starts from.
    pub fn new() -> (r: AuthState)
        ensures
            !r.received_callback,
            r.payload is None,
            r.error is None,
    {
        AuthState { received_callback: false, payload: None, error: None }
    }
}

/// First index at or after `i` whose parameter is named `k`, or -1.
pub open spec fn param_index_from(ps: Seq<(String, String)>, k: Seq<char>, i: int) -> int
    decreases ps.len() - i,
{
    if i < 0 || i >= ps.len() {
        -1
    } else if ps[i].0@ == k {
        i
    } else {
        param_index_from(ps, k, i + 1)
    }
}

pub open spec fn param_index(ps: Seq<(String, String)>, k: Seq<char>) -> int {
    param_index_from(ps, k, 0)
}

/// Value of the first parameter named `k`, if any.
pub open spec fn param_value(ps: Seq<(String, String)>, k: Seq<char>) -> Option<Seq<char>> {
    if param_index(ps, k) >= 0 {
        Some(ps[param_index(ps, k)].1@)
    } else {
        None
    }
}

proof fn lemma_param_index_from(ps: Seq<(String, String)>, k: Seq<char>, i: int)
    requires
        0 <= i <= ps.len(),
    ensures
        param_index_from(ps, k, i) == -1 || i <= param_index_from(ps, k, i) < ps.len(),
        param_index_from(ps, k, i) >= 0 ==> ps[param_index_from(ps, k, i)].0@ == k,
    decreases ps.len() - i,
{
    if i < ps.len() && ps[i].0@ != k {
        lemma_param_index_from(ps, k, i + 1);
    }
}

/// Value of the first query parameter named `k`, copied out.
fn find_param(params: &Vec<(String, String)>, k: &str) -> (r: Option<String>)
    ensures
        r is Some <==> param_value(params@, k@) is Some,
        r matches Some(v) ==> param_value(params@, k@) == Some(v@),
{
    let n = params.len();
    let mut i: usize = 0;
    while i < n
        invariant
            n == params@.len(),
            0 <= i <= n,
            param_index(params@, k@) == param_index_from(params@, k@, i as int),
        decreases n - i,
    {
        if str_eq(params[i].0.as_str(), k) {
            proof {
                lemma_param_index_from(params@, k@, 0);
            }
            return Some(params[i].1.clone());
        }
        i = i + 1;
    }
    proof {
        lemma_param_index_from(params@, k@, 0);
    }
    None
}

/// Which page the callback responder serves back.
#[derive(Clone, Copy, Debug, PartialEq, Eq, Structural)]
pub enum CallbackPage {
    Success,
    Session,
    Error,
}

/// What one callback's query parameters amount to, in the order the
/// responder checks them: an `error` parameter, else an `api_key`, else a
/// `session`, else nothing recognizable.
pub enum SpecCallback {
    ReportedError(Seq<char>),
    DirectKey(Seq<char>),
    SessionToken(Seq<char>),
    NoPayload,
}

pub open spec fn classify_params(ps: Seq<(String, String)>) -> SpecCallback {
    match param_value(ps, "error"@) {
        Some(e) => SpecCallback::ReportedError(e),
        None => match param_value(ps, "api_key"@) {
            Some(k) => SpecCallback::DirectKey(k),
            None => match param_value(ps, "session"@) {
                Some(s) => SpecCallback::SessionToken(s),
                None => SpecCallback::NoPayload,
            },
        },
    }
}

/// Record the outcome of one OAuth redirect in the shared state and
/// pick the page to serve. Completion is always marked — even an
/// unrecognized callback unblocks the poller, which then falls back to
/// manual key entry rather than hanging (the lenient fallback).
pub fn handle_callback(state: &mut AuthState, params: &Vec<(String, String)>) -> (page:
    CallbackPage)
    ensures
        final(state).received_callback,
        match classify_params(params@) {
            SpecCallback::ReportedError(e) => (final(state).error matches Some(x) && x@ == e)
                && final(state).payload == old(state).payload && page == CallbackPage::Error,
            SpecCallback::DirectKey(k) => (final(state).payload matches Some(x) && x@ == k)
                && final(state).error == old(state).error && page == CallbackPage::Success,
            SpecCallback::SessionToken(s) => (final(state).payload matches Some(x) && x@ == s)
                && final(state).error == old(state).error && page == CallbackPage::Session,
            SpecCallback::NoPayload => final(state).payload == old(state).payload
                && final(state).error == old(state).error && page == CallbackPage::Session,
        },
{
    match find_param(params, "error") {
        Some(e) => {
            state.error = Some(e);
            state.received_callback = true;
            CallbackPage::Error
        },
        None => {
            match find_param(params, "api_key") {
                Some(k) => {
                    state.payload = Some(k);
                    state.received_callback = true;
                    CallbackPage::Success
                },
                None => {
                    match find_param(params, "session") {
                        Some(s) => {
                            state.payload = Some(s);
                            state.received_callback = true;
                            CallbackPage::Session
                        },
                        None => {
                            state.received_callback = true;
                            CallbackPage::Session
                        },
                    }
                },
            }
        },
    }
}

/// Error taxonomy of the login flow.
#[derive(Debug, Clone, PartialEq)]
pub enum AuthError {
    /// The supplied or received key was rejected by the server.
    InvalidKey,
    /// The validation request itself failed.
    ValidationFailed(String),
    /// No callback arrived within the timeout window.
    OauthTimeout,
    /// The server reported an OAuth error.
    OauthError(String),
    /// The session-token exchange did not yield a key.
    SessionExchangeFailed,
    /// A store or resolution failure.
    Config(ConfigError),
}

impl AuthError {
    /// The user-facing text of this error; keys never appear here.
    pub open spec fn message_spec(self) -> Seq<char> {
        match self {
            AuthError::InvalidKey => "Invalid API key. Please check and try again."@,
            AuthError::ValidationFailed(e) => "Failed to validate credentials: "@ + e@,
            AuthError::OauthTimeout => "Authentication timeout. Please try again."@,
            AuthError::OauthError(e) => "Authentication failed: "@ + e@,
            AuthError::SessionExchangeFailed => "Failed to create API key. Session may be invalid or expired."@,
            AuthError::Config(e) => e.message_spec(),
        }
    }

    /// Render the error for the user.
    pub fn message(&self) -> (r: String)
        ensures
            r@ == self.message_spec(),
    {
        match self {
            AuthError::InvalidKey => String::from_str("Invalid API key. Please check and try again."),
            AuthError::ValidationFailed(e) => {
                let mut r = String::from_str("Failed to validate credentials: ");
                r.append(e.as_str());
                r
            },
            AuthError::OauthTimeout => String::from_str("Authentication timeout. Please try again."),
            AuthError::OauthError(e) => {
                let mut r = String::from_str("Authentication failed: ");
                r.append(e.as_str());
                r
            },
            AuthError::SessionExchangeFailed => String::from_str(
                "Failed to create API key. Session may be invalid or expired.",
            ),
            AuthError::Config(e) => e.message(),
        }
    }
}

/// What the polling loop should do after one look at the shared state.
#[derive(Debug, Clone, PartialEq)]
pub enum OauthStep {
    /// The callback has not arrived; keep waiting.
    Wait,
    /// Give up with this error.
    Fail(AuthError),
    /// The redirect delivered a server-issued API key: validate and persist.
    UseKey(String),
    /// The redirect delivered a session token: exchange it for a key.
    ExchangeSession(String),
    /// The callback arrived with no payload: fall back to manual entry.
    ManualFallback,
}

/// One poll of the shared state: past the deadline the attempt times out
/// whatever the state holds; then a completed state is read off — a server-reported
/// error fails the attempt, a payload is split into direct key versus
/// session token, and an empty completion falls back to manual entry.
pub open spec fn oauth_step_spec(st: AuthState, elapsed_ms: u64) -> OauthStep {
    if elapsed_ms > OAUTH_TIMEOUT_MS {
        OauthStep::Fail(AuthError::OauthTimeout)
    } else if !st.received_callback {
        OauthStep::Wait
    } else {
        match st.error {
            Some(e) => OauthStep::Fail(AuthError::OauthError(e)),
            None => match st.payload {
                Some(t) => if is_api_key_spec(t@) {
                    OauthStep::UseKey(t)
                } else {
                    OauthStep::ExchangeSession(t)
                },
                None => OauthStep::ManualFallback,
            },
        }
    }
}

/// Decide the polling loop's next move.
pub fn oauth_step(state: &AuthState, elapsed_ms: u64) -> (r: OauthStep)
    ensures
        r == oauth_step_spec(*state, elapsed_ms),
{
    if elapsed_ms > OAUTH_TIMEOUT_MS {
        return OauthStep::Fail(AuthError::OauthTimeout);
    }
    if !state.received_callback {
        return OauthStep::Wait;
    }
    match &state.error {
        Some(e) => OauthStep::Fail(AuthError::OauthError(e.clone())),
        None => {
            match &state.payload {
                Some(t) => {
                    if is_api_key(t.as_str()) {
                        OauthStep::UseKey(t.clone())
                    } else {
                        OauthStep::ExchangeSession(t.clone())
                    }
                },
                None => OauthStep::ManualFallback,
            }
        },
    }
}

pub open spec fn is_url_safe(c: char) -> bool {
    ('0' <= c && c <= '9') || ('A' <= c && c <= 'Z') || ('a' <= c && c <= 'z') || c == '-' || c
        == '.' || c == '_' || c == '~'
}

/// Uppercase hex digit for `d % 16`.
pub open spec fn hex_char(d: nat) -> char {
    if d % 16 < 10 {
        ((48 + d % 16) as u8) as char
    } else {
        ((55 + d % 16) as u8) as char
    }
}

/// How one ASCII character percent-encodes.
pub open spec fn encode_char(c: char) -> Seq<char> {
    if is_url_safe(c) {
        seq![c]
    } else {
        seq!['%', hex_char(((c as u8) / 16) as nat), hex_char(((c as u8) % 16) as nat)]
    }
}

/// Percent-encoding of ASCII text: alphanumerics and `-`, `.`, `_`, `~` are
/// copied, every other character becomes `%` plus two uppercase hex digits.
pub open spec fn url_encoded(s: Seq<char>) -> Seq<char>
    decreases s.len(),
{
    if s.len() == 0 {
        Seq::<char>::empty()
    } else {
        encode_char(s[0]) + url_encoded(s.drop_first())
    }
}

/// Relies on `urlencoding::encode`: it percent-encodes every byte except
/// ASCII alphanumerics and `-`, `.`, `_`, `~`, using uppercase hex digits.
#[verifier::external_body]
fn percent_encode(s: &str) -> (r: String)
    requires
        s.is_ascii(),
    ensures
        r@ == url_encoded(s@),
{
    String::from(urlencoding::encode(s))
}

/// `u` with one trailing slash removed, the form endpoint paths append to.
pub open spec fn base_trimmed(u: Seq<char>) -> Seq<char> {
    if u.len() > 0 && u[u.len() - 1] == '/' {
        u.subrange(0, u.len() - 1)
    } else {
        u
    }
}

fn trim_base<'a>(server: &'a str) -> (r: &'a str)
    ensures
        r@ == base_trimmed(server@),
{
    let n = server.unicode_len();
    if n > 0 && server.get_char(n - 1) == '/' {
        server.substring_char(0, n - 1)
    } else {
        server
    }
}

/// The authorize request URL for a server and a callback address.
pub open spec fn authorize_url_spec(server: Seq<char>, callback: Seq<char>) -> Seq<char> {
    base_trimmed(server) + "/oauth/authorize?redirect_uri="@ + url_encoded(callback)
        + "&response_type=code&client_id=cli"@
}

/// Build the browser-facing authorize URL embedding the listener's callback.
pub fn build_authorize_url(server: &str, callback_url: &str) -> (r: String)
    requires
        callback_url.is_ascii(),
    ensures
        r@ == authorize_url_spec(server@, callback_url@),
{
    let mut r = String::from_str(trim_base(server));
    r.append("/oauth/authorize?redirect_uri=");
    let enc = percent_encode(callback_url);
    r.append(enc.as_str());
    r.append("&response_type=code&client_id=cli");
    r
}

/// Loopback callback address for the ephemeral listener's OS-chosen port.
pub fn callback_url_for_port(port: u16) -> (r: String)
    ensures
        r@ == "http://localhost:"@ + dec_str(port as nat) + "/callback"@,
        r.is_ascii(),
{
    let mut r = String::from_str("http://localhost:");
    push_dec(&mut r, port as u64);
    r.append("/callback");
    proof {
        reveal_strlit("http://localhost:");
        reveal_strlit("/callback");
        lemma_dec_str_ascii(port as nat);
        assert forall|i: int| 0 <= i < r@.len() implies '\0' <= #[trigger] r@[i] <= '\u{7f}' by {
            let a = "http://localhost:"@;
            let d = dec_str(port as nat);
            let b = "/callback"@;
            if i < a.len() {
                assert(r@[i] == a[i]);
            } else if i < a.len() + d.len() {
                assert(r@[i] == d[i - a.len()]);
            } else {
                assert(r@[i] == b[i - a.len() - d.len()]);
            }
        }
    }
    r
}

/// The key-validation endpoint: `GET {server}/api/v0/check_key`.
pub fn check_key_url(server: &str) -> (r: String)
    ensures
        r@ == base_trimmed(server@) + "/api/v0/check_key"@,
{
    let mut r = String::from_str(trim_base(server));
    r.append("/api/v0/check_key");
    r
}

/// The `Authorization` header value presenting a key.
pub fn auth_header_value(key: &str) -> (r: String)
    ensures
        r@ == "Key "@ + key@,
{
    let mut r = String::from_str("Key ");
    r.append(key);
    r
}

/// The key-issuance endpoint: `POST {server}/api/v0/api-keys`.
pub fn api_keys_url(server: &str) -> (r: String)
    ensures
        r@ == base_trimmed(server@) + "/api/v0/api-keys"@,
{
    let mut r = String::from_str(trim_base(server));
    r.append("/api/v0/api-keys");
    r
}

/// The `Cookie` header value presenting a session token to the issuance
/// endpoint.
pub fn session_cookie_header(token: &str) -> (r: String)
    ensures
        r@ == "tower.session="@ + token@,
{
    let mut r = String::from_str("tower.session=");
    r.append(token);
    r
}

/// The account's manual key-management page, opened in the fallback path.
pub fn keys_page_url(server: &str) -> (r: String)
    ensures
        r@ == base_trimmed(server@) + "/keys"@,
{
    let mut r = String::from_str(trim_base(server));
    r.append("/keys");
    r
}

/// Text that can be spliced into a JSON string without escaping.
pub open spec fn json_safe(s: Seq<char>) -> bool {
    forall|i: int| 0 <= i < s.len() ==> s[i] != '"' && s[i] != '\\' && s[i] >= ' '
}

/// Wire request for the key-issuance endpoint: a human-readable name and a
/// requested lifetime, or an absolute expiry.
#[derive(Debug, Clone, PartialEq)]
pub struct CreateApiKeyRequest {
    pub name: String,
    pub expires_in_hours: u32,
    pub expires_at: Option<String>,
}

/// Wire response of the key-issuance endpoint.
#[derive(Debug, Clone, PartialEq)]
pub struct ApiKeyResponse {
    pub key: String,
    pub name: String,
    pub expires_at: Option<String>,
}

/// The JSON body of a key-issuance request; `expires_at` is omitted when
/// absent.
pub open spec fn request_json_spec(
    name: Seq<char>,
    hours: nat,
    expires_at: Option<Seq<char>>,
) -> Seq<char> {
    let head = "{\"name\":\""@ + name + "\",\"expires_in_hours\":"@ + dec_str(hours);
    match expires_at {
        Some(e) => head + ",\"expires_at\":\""@ + e + "\"}"@,
        None => head + "}"@,
    }
}

impl CreateApiKeyRequest {
    /// Serialize for the wire. The names and timestamps this client
    /// generates never need JSON escaping, which the precondition pins down.
    pub fn to_json(&self) -> (r: String)
        requires
            json_safe(self.name@),
            self.expires_at matches Some(e) ==> json_safe(e@),
        ensures
            r@ == request_json_spec(
                self.name@,
                self.expires_in_hours as nat,
                opt_view(self.expires_at),
            ),
    {
        let mut r = String::from_str("{\"name\":\"");
        r.append(self.name.as_str());
        r.append("\",\"expires_in_hours\":");
        push_dec(&mut r, self.expires_in_hours as u64);
        match &self.expires_at {
            Some(e) => {
                r.append(",\"expires_at\":\"");
                r.append(e.as_str());
                r.append("\"}");
            },
            None => {
                r.append("}");
            },
        }
        proof {
            assert(r@ =~= request_json_spec(
                self.name@,
                self.expires_in_hours as nat,
                opt_view(self.expires_at),
            ));
        }
        r
    }
}

/// Name under which an issued key is registered: a fixed prefix plus the
/// caller-supplied timestamp.
pub fn api_key_name(timestamp: &str) -> (r: String)
    ensures
        r@ == "ricochet-cli-"@ + timestamp@,
{
    let mut r = String::from_str("ricochet-cli-");
    r.append(timestamp);
    r
}

pub open spec fn is_loopback_host(h: Seq<char>) -> bool {
    h == "localhost"@ || h == "127.0.0.1"@ || h == "::1"@ || h == "[::1]"@
}

/// `h` with a leading `www.` label removed.
pub open spec fn strip_www(h: Seq<char>) -> Seq<char> {
    if h.len() >= 4 && h.subrange(0, 4) == "www."@ {
        h.subrange(4, h.len() as int)
    } else {
        h
    }
}

/// Last resort for naming an entry: a name derived from the URL host — loopback
/// hosts get the fixed friendly name, a leading `www.` is stripped, and
/// anything unusable falls back to the generic name.
pub open spec fn derived_name_spec(url: Seq<char>) -> Seq<char> {
    if !valid_server_url(url) {
        "default"@
    } else {
        let h = url_host_spec(url);
        if is_loopback_host(h) {
            "default"@
        } else {
            let h2 = strip_www(h);
            if h2.len() == 0 {
                "default"@
            } else {
                h2
            }
        }
    }
}

/// The name of the first entry matching `url`, else a name derived from its
/// host.
pub open spec fn url_or_derived_name(s: Seq<ServerEntry>, url: Seq<char>) -> Seq<char> {
    if valid_server_url(url) && has_url_match(s, normalize_url_spec(url)) {
        s[url_match_index(s, normalize_url_spec(url))].name@
    } else {
        derived_name_spec(url)
    }
}

/// The entry name a fresh key is persisted under — an
/// explicitly referenced known name, else the name of an entry with the same
/// URL, else a name derived from the host.
pub open spec fn login_entry_name_spec(
    s: Seq<ServerEntry>,
    reference: Option<Seq<char>>,
    url: Seq<char>,
) -> Seq<char> {
    match reference {
        Some(r) => if has_entry(s, r) {
            r
        } else {
            url_or_derived_name(s, url)
        },
        None => url_or_derived_name(s, url),
    }
}

fn derived_name(url: &str) -> (r: String)
    ensures
        r@ == derived_name_spec(url@),
{
    match url_host(url) {
        None => String::from_str("default"),
        Some(h) => {
            proof {
                assert(h@ == url_host_spec(url@));
            }
            if str_eq(h.as_str(), "localhost") || str_eq(h.as_str(), "127.0.0.1") || str_eq(
                h.as_str(),
                "::1",
            ) || str_eq(h.as_str(), "[::1]") {
                proof {
                    assert(is_loopback_host(url_host_spec(url@)));
                }
                String::from_str("default")
            } else {
                proof {
                    assert(!is_loopback_host(url_host_spec(url@)));
                }
                let n = h.as_str().unicode_len();
                if n >= 4 && str_eq(h.as_str().substring_char(0, 4), "www.") {
                    proof {
                        assert(strip_www(h@) =~= h@.subrange(4, n as int));
                    }
                    if n == 4 {
                        proof {
                            assert(strip_www(h@).len() == 0);
                        }
                        String::from_str("default")
                    } else {
                        String::from_str(h.as_str().substring_char(4, n))
                    }
                } else if n == 0 {
                    String::from_str("default")
                } else {
                    h
                }
            }
        },
    }
}

/// Pick the entry name for persisting a fresh key.
pub fn entry_name_for_login(config: &Config, reference: Option<&str>, url: &str) -> (r: String)
    ensures
        r@ == login_entry_name_spec(config.servers@, opt_str_view(reference), url@),
{
    match reference {
        Some(rf) => {
            match config.find_entry(rf) {
                Some(_) => {
                    return String::from_str(rf);
                },
                None => {},
            }
        },
        None => {},
    }
    match normalize_server_url(url) {
        Some(n) => {
            match config.find_url_match(n.as_str()) {
                Some(i) => config.servers[i].name.clone(),
                None => derived_name(url),
            }
        },
        None => derived_name(url),
    }
}

/// The verdict the embedding binary got from the validation endpoint.
#[derive(Debug, Clone, PartialEq)]
pub enum ValidationOutcome {
    /// The server accepted the key.
    Valid,
    /// The server rejected the key.
    Invalid,
    /// The request itself failed.
    TransportError(String),
}

/// A stored key lets login finish early only when the server accepted it.
/// A transport failure counts as "not valid" on this fast path: login
/// proceeds instead of failing.
pub fn existing_key_suffices(validation: &ValidationOutcome) -> (r: bool)
    ensures
        r <==> (*validation matches ValidationOutcome::Valid),
{
    match validation {
        ValidationOutcome::Valid => true,
        ValidationOutcome::Invalid => false,
        ValidationOutcome::TransportError(_) => false,
    }
}

/// Resolve the target of a login attempt: like general resolution, except
/// that an empty store with nothing to go on falls back to the well-known
/// local server (keyless, unless the environment supplies a key) so a fresh
/// install can log in.
pub fn resolve_login_target(config: &Config, reference: Option<&str>, env: &EnvSnapshot) -> (r:
    Result<ServerConfig, ConfigError>)
    requires
        config.wf(),
    ensures
        match r {
            Ok(sc) => {
                ||| (config.resolve_spec(opt_str_view(reference), opt_view(env.server))
                    matches SpecResolved::Found { url, key } && sc.url@ == url && opt_view(
                    sc.api_key,
                ) == (if env.api_key is Some {
                    opt_view(env.api_key)
                } else {
                    key
                }))
                ||| (config.resolve_spec(opt_str_view(reference), opt_view(env.server))
                    is NoServers && sc.url@ == LOCAL_SERVER_URL@ && opt_view(sc.api_key) == opt_view(
                    env.api_key,
                ))
            },
            Err(e) => config.resolve_spec(opt_str_view(reference), opt_view(env.server))
                is NotFound && e matches ConfigError::ServerNotFound { .. },
        },
{
    match config.resolve_server(reference, env) {
        Ok(sc) => Ok(sc),
        Err(e) => {
            match e {
                ConfigError::NoServers => {
                    let key = match &env.api_key {
                        Some(k) => Some(k.clone()),
                        None => None,
                    };
                    Ok(ServerConfig { url: String::from_str(LOCAL_SERVER_URL), api_key: key })
                },
                other => Err(other),
            }
        },
    }
}

/// A successful login, ready for display; the raw key never appears.
#[derive(Debug, Clone, PartialEq)]
pub struct LoginSuccess {
    /// Entry name the key was stored under.
    pub name: String,
    /// URL of the server logged into.
    pub url: String,
    /// The abbreviated form of the key, safe to print.
    pub key_display: String,
}

/// The caller validated `key` against `url` and hands in the verdict. Only
/// an accepted key is persisted — under the entry name that
/// [`entry_name_for_login`] picks — and the first entry ever stored becomes
/// the default.
/// On any failure the store is left untouched: no partial credential is ever
/// persisted.
pub fn persist_validated_key(
    config: &mut Config,
    reference: Option<&str>,
    url: &str,
    key: String,
    validation: ValidationOutcome,
) -> (r: Result<LoginSuccess, AuthError>)
    requires
        old(config).wf(),
    ensures
        final(config).wf(),
        match r {
            Ok(ls) => (validation matches ValidationOutcome::Valid) && ls.name@
                == login_entry_name_spec(old(config).servers@, opt_str_view(reference), url@)
                && ls.url@ == url@ && ls.key_display@ == abbreviated_key(key@) && (exists|
                e: ServerEntry,
            |
                Config::add_transition(*old(config), *final(config), e) && e.name@ == ls.name@
                    && e.url@ == url@ && (#[trigger] e.api_key matches Some(k2) && k2@ == key@)),
            Err(ae) => *final(config) == *old(config) && match validation {
                ValidationOutcome::Valid => false,
                ValidationOutcome::Invalid => ae == AuthError::InvalidKey,
                ValidationOutcome::TransportError(t) => ae == (AuthError::ValidationFailed(t)),
            },
        },
{
    match validation {
        ValidationOutcome::Valid => {
            let name = entry_name_for_login(config, reference, url);
            let name_for_entry = name.clone();
            let url_for_entry = String::from_str(url);
            let display = mask_api_key(key.as_str());
            let ghost gname = name_for_entry;
            let ghost gurl = url_for_entry;
            let ghost gkey = key;
            config.add_server(name_for_entry, url_for_entry, Some(key));
            proof {
                let e = ServerEntry { name: gname, url: gurl, api_key: Some(gkey) };
                assert(Config::add_transition(*old(config), *config, e));
                assert(e.api_key matches Some(k2) && k2@ == gkey@);
            }
            Ok(LoginSuccess { name, url: String::from_str(url), key_display: display })
        },
        ValidationOutcome::Invalid => Err(AuthError::InvalidKey),
        ValidationOutcome::TransportError(t) => Err(AuthError::ValidationFailed(t)),
    }
}

/// A headless environment is one where the platform relies on
/// windowing environment variables and neither display variable holds
/// anything; there a browser redirect is pointless and login falls back to
/// manual key entry.
pub open spec fn env_var_set(v: Option<Seq<char>>) -> bool {
    match v {
        Some(s) => s.len() > 0,
        None => false,
    }
}

/// Decide whether to skip the browser flow.
pub fn is_headless(
    needs_display_vars: bool,
    display: Option<&str>,
    wayland: Option<&str>,
) -> (r: bool)
    ensures
        r == (needs_display_vars && !env_var_set(opt_str_view(display)) && !env_var_set(
            opt_str_view(wayland),
        )),
{
    if !needs_display_vars {
        return false;
    }
    let d_set = match display {
        Some(s) => s.unicode_len() > 0,
        None => false,
    };
    let w_set = match wayland {
        Some(s) => s.unicode_len() > 0,
        None => false,
    };
    !d_set && !w_set
}

impl Config {
    /// Resolve `reference` (the default server when absent) and build the
    /// browser-facing authorize URL against it.
    pub fn build_authorize_url_for_server(&self, callback_url: &str, reference: Option<&str>) -> (r:
        Result<String, ConfigError>)
        requires
            self.wf(),
            callback_url.is_ascii(),
        ensures
            match r {
                Ok(u) => self.resolve_spec(opt_str_view(reference), None)
                    matches SpecResolved::Found { url, .. } && u@ == authorize_url_spec(
                    url,
                    callback_url@,
                ),
                Err(e) => match e {
                    ConfigError::ServerNotFound { .. } => self.resolve_spec(
                        opt_str_view(reference),
                        None,
                    ) is NotFound,
                    ConfigError::NoServers => self.resolve_spec(opt_str_view(reference), None)
                        is NoServers,
                    _ => false,
                },
            },
    {
        let env = EnvSnapshot::empty();
        match self.resolve_server(reference, &env) {
            Ok(sc) => Ok(build_authorize_url(sc.url.as_str(), callback_url)),
            Err(e) => Err(e),
        }
    }
}

/// Index of the entry used when no reference is given, or -1 with an empty
/// store.
pub open spec fn default_index(c: Config) -> int {
    match c.default_server {
        Some(d) => entry_index(c.servers@, d@),
        None => if c.servers@.len() > 0 {
            0
        } else {
            -1
        },
    }
}

/// Logout target lookup: a known name, else a URL matched against the stored
/// entries (never creating an ephemeral one), else failure; with no
/// reference, the default choice.
pub open spec fn logout_index(c: Config, r: Option<Seq<char>>) -> int {
    match r {
        Some(rf) => if has_entry(c.servers@, rf) {
            entry_index(c.servers@, rf)
        } else if valid_server_url(rf) && has_url_match(c.servers@, normalize_url_spec(rf)) {
            url_match_index(c.servers@, normalize_url_spec(rf))
        } else {
            -1
        },
        None => default_index(c),
    }
}

/// The entry with its key cleared.
pub open spec fn cleared_entry(e: ServerEntry) -> ServerEntry {
    ServerEntry { name: e.name, url: e.url, api_key: None }
}

/// How `logout` changes a store: the target entry's key is cleared (when it
/// had one), and nothing else — no other entry, no default pointer, nothing
/// legacy — is touched.
pub open spec fn logout_transition(
    pre: Config,
    post: Config,
    r: Option<Seq<char>>,
    cleared: bool,
) -> bool {
    let i = logout_index(pre, r);
    &&& i >= 0
    &&& cleared == (pre.servers@[i].api_key is Some)
    &&& post.servers@ == (if cleared {
        pre.servers@.update(i, cleared_entry(pre.servers@[i]))
    } else {
        pre.servers@
    })
    &&& post.default_server == pre.default_server
    &&& post.server == pre.server
    &&& post.api_key == pre.api_key
    &&& post.default_format == pre.default_format
    &&& post.skip_update_check == pre.skip_update_check
}

/// Clear one server's stored key. `Ok(true)` cleared a key; `Ok(false)`
/// found none to clear — logging out twice is not an error. An unmatched
/// name or URL is a hard failure and the store is untouched.
pub fn logout(config: &mut Config, reference: Option<&str>) -> (r: Result<bool, ConfigError>)
    requires
        old(config).wf(),
    ensures
        final(config).wf(),
        match r {
            Ok(cleared) => logout_transition(
                *old(config),
                *final(config),
                opt_str_view(reference),
                cleared,
            ),
            Err(e) => logout_index(*old(config), opt_str_view(reference)) == -1 && *final(config)
                == *old(config) && match e {
                ConfigError::ServerNotFound { name, .. } => opt_str_view(reference)
                    matches Some(rf) && name@ == rf && !valid_server_url(rf),
                ConfigError::UrlNotFound { url } => opt_str_view(reference) matches Some(rf)
                    && url@ == rf && valid_server_url(rf),
                ConfigError::NoServers => opt_str_view(reference) is None,
                _ => false,
            },
        },
{
    let idx: usize;
    match reference {
        Some(rf) => {
            match config.find_entry(rf) {
                Some(i) => {
                    proof {
                        lemma_entry_index(config.servers@, rf@);
                    }
                    idx = i;
                },
                None => {
                    match normalize_server_url(rf) {
                        Some(n) => {
                            match config.find_url_match(n.as_str()) {
                                Some(i) => {
                                    idx = i;
                                },
                                None => {
                                    return Err(
                                        ConfigError::UrlNotFound { url: String::from_str(rf) },
                                    );
                                },
                            }
                        },
                        None => {
                            return Err(
                                ConfigError::ServerNotFound {
                                    name: String::from_str(rf),
                                    known: config.server_names(),
                                },
                            );
                        },
                    }
                },
            }
        },
        None => {
            match &config.default_server {
                Some(d) => {
                    match config.find_entry(d.as_str()) {
                        Some(i) => {
                            proof {
                                lemma_entry_index(config.servers@, d@);
                            }
                            idx = i;
                        },
                        None => {
                            proof {
                                assert(false);
                            }
                            return Err(ConfigError::NoServers);
                        },
                    }
                },
                None => {
                    if config.servers.len() > 0 {
                        idx = 0;
                    } else {
                        return Err(ConfigError::NoServers);
                    }
                },
            }
        },
    }
    let had_key = config.servers[idx].api_key.is_some();
    if !had_key {
        return Ok(false);
    }
    let name2 = config.servers[idx].name.clone();
    let url2 = config.servers[idx].url.clone();
    config.servers.set(idx, ServerEntry { name: name2, url: url2, api_key: None });
    proof {
        assert(config.servers@[idx as int] == cleared_entry(old(config).servers@[idx as int]));
        assert(config.servers@ =~= old(config).servers@.update(
            idx as int,
            cleared_entry(old(config).servers@[idx as int]),
        ));
        assert forall|a: int, b: int|
            0 <= a < b < config.servers@.len() implies config.servers@[a].name@
            != config.servers@[b].name@ by {
            assert(old(config).wf());
            assert(config.servers@[a].name@ == old(config).servers@[a].name@);
            assert(config.servers@[b].name@ == old(config).servers@[b].name@);
        }
        match &config.default_server {
            Some(d) => {
                let k = choose|k: int|
                    0 <= k < old(config).servers@.len() && old(config).servers@[k].name@ == d@;
                assert(config.servers@[k].name@ == d@);
            },
            None => {},
        }
    }
    Ok(true)
}

proof fn lemma_entry_index_names_eq(s1: Seq<ServerEntry>, s2: Seq<ServerEntry>, n: Seq<char>, i: int)
    requires
        s1.len() == s2.len(),
        forall|k: int| 0 <= k < s1.len() ==> s1[k].name@ == s2[k].name@,
        0 <= i <= s1.len(),
    ensures
        entry_index_from(s1, n, i) == entry_index_from(s2, n, i),
    decreases s1.len() - i,
{
    if i < s1.len() {
        lemma_entry_index_names_eq(s1, s2, n, i + 1);
    }
}

proof fn lemma_has_entry_names_eq(s1: Seq<ServerEntry>, s2: Seq<ServerEntry>, n: Seq<char>)
    requires
        s1.len() == s2.len(),
        forall|k: int| 0 <= k < s1.len() ==> s1[k].name@ == s2[k].name@,
    ensures
        has_entry(s1, n) <==> has_entry(s2, n),
{
    if has_entry(s1, n) {
        let k = choose|k: int| 0 <= k < s1.len() && s1[k].name@ == n;
        assert(s2[k].name@ == n);
    }
    if has_entry(s2, n) {
        let k = choose|k: int| 0 <= k < s2.len() && s2[k].name@ == n;
        assert(s1[k].name@ == n);
    }
}

proof fn lemma_url_match_index_urls_eq(s1: Seq<ServerEntry>, s2: Seq<ServerEntry>, n: Seq<char>, i: int)
    requires
        s1.len() == s2.len(),
        forall|k: int| 0 <= k < s1.len() ==> s1[k].url@ == s2[k].url@,
        0 <= i <= s1.len(),
    ensures
        url_match_index_from(s1, n, i) == url_match_index_from(s2, n, i),
    decreases s1.len() - i,
{
    if i < s1.len() {
        assert(url_match(s1[i], n) == url_match(s2[i], n));
        lemma_url_match_index_urls_eq(s1, s2, n, i + 1);
    }
}

proof fn lemma_has_url_match_urls_eq(s1: Seq<ServerEntry>, s2: Seq<ServerEntry>, n: Seq<char>)
    requires
        s1.len() == s2.len(),
        forall|k: int| 0 <= k < s1.len() ==> s1[k].url@ == s2[k].url@,
    ensures
        has_url_match(s1, n) <==> has_url_match(s2, n),
{
    if has_url_match(s1, n) {
        let k = choose|k: int| 0 <= k < s1.len() && url_match(s1[k], n);
        assert(url_match(s2[k], n));
    }
    if has_url_match(s2, n) {
        let k = choose|k: int| 0 <= k < s2.len() && url_match(s2[k], n);
        assert(url_match(s1[k], n));
    }
}

/// Logout idempotence law: after one successful logout, logging out of the
/// same reference succeeds again as a no-op — the transition holds a second
/// time with the store unchanged and nothing cleared — and the target's key
/// is absent both times.
pub proof fn lemma_logout_idempotent(c0: Config, c1: Config, r: Option<Seq<char>>, cleared: bool)
    requires
        c0.wf(),
        logout_transition(c0, c1, r, cleared),
    ensures
        logout_transition(c1, c1, r, false),
        c1.servers@[logout_index(c1, r)].api_key is None,
{
    let i = logout_index(c0, r);
    match r {
        Some(rf) => {
            lemma_entry_index(c0.servers@, rf);
            if !has_entry(c0.servers@, rf) {
                lemma_url_match_index(c0.servers@, normalize_url_spec(rf));
            }
        },
        None => {
            match c0.default_server {
                Some(d) => {
                    lemma_entry_index(c0.servers@, d@);
                },
                None => {},
            }
        },
    }
    assert(0 <= i < c0.servers@.len());
    assert(c1.servers@.len() == c0.servers@.len());
    assert(forall|k: int|
        0 <= k < c0.servers@.len() ==> c1.servers@[k].name@ == c0.servers@[k].name@
            && c1.servers@[k].url@ == c0.servers@[k].url@);
    match r {
        Some(rf) => {
            lemma_has_entry_names_eq(c0.servers@, c1.servers@, rf);
            lemma_entry_index_names_eq(c0.servers@, c1.servers@, rf, 0);
            if !has_entry(c0.servers@, rf) {
                lemma_has_url_match_urls_eq(c0.servers@, c1.servers@, normalize_url_spec(rf));
                lemma_url_match_index_urls_eq(c0.servers@, c1.servers@, normalize_url_spec(rf), 0);
            }
        },
        None => {
            match c0.default_server {
                Some(d) => {
                    lemma_entry_index_names_eq(c0.servers@, c1.servers@, d@, 0);
                },
                None => {},
            }
        },
    }
    assert(logout_index(c1, r) == i);
    assert(c1.servers@[i].api_key is None);
}

} // verus!
