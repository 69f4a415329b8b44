//! The pure half of the upstream exchange: request material derived from the
//! configuration, and the decision taken on each upstream answer. The calls
//! themselves are performed by the program around the library.
use crate::error::AppError;
use crate::extract::{payload_of, spec_payload_of, spec_token_of, token_of};
use crate::json::{parse_text, push_char, spec_parse_text};
use crate::models::{NowPlayingResponse, RespV, TokenResponse};
use crate::normalize::{normalize, spec_normalize};
use vstd::prelude::*;
use vstd::string::StringExecFns;

verus! {

/// The process configuration: upstream credentials and the listen port.
#[derive(Debug, Clone)]
pub struct Config {
    pub spotify_client_id: String,
    pub spotify_client_secret: String,
    pub spotify_refresh_token: String,
    pub port: u16,
}

/// What base64's standard alphabet makes of a string's UTF-8 bytes.
pub uninterp spec fn base64_std_of(s: Seq<char>) -> Seq<char>;

/// Relies on base64's `STANDARD` engine: `encode` of the string's UTF-8
/// bytes, which depends on the input characters alone.
#[verifier::external_body]
fn base64_encode_str(s: &str) -> (r: String)
    ensures
        r@ == base64_std_of(s@),
{
    base64::engine::Engine::encode(&base64::engine::general_purpose::STANDARD, s.as_bytes())
}

/// The value of the Basic authentication header for the token exchange.
pub open spec fn spec_basic_auth(id: Seq<char>, secret: Seq<char>) -> Seq<char> {
    "Basic "@ + base64_std_of(id + seq![':'] + secret)
}

/// Builds `Basic` credentials from the client id and secret.
pub fn basic_auth_header(client_id: &str, client_secret: &str) -> (r: String)
    ensures
        r@ == spec_basic_auth(client_id@, client_secret@),
{
    let mut creds = String::from_str(client_id);
    push_char(&mut creds, ':');
    creds.append(client_secret);
    proof {
        assert(creds@ =~= client_id@ + seq![':'] + client_secret@);
    }
    let encoded = base64_encode_str(creds.as_str());
    let mut out = String::from_str("Basic ");
    out.append(encoded.as_str());
    out
}

/// Builds the Bearer header value for the resource fetch.
pub fn bearer_header(token: &str) -> (r: String)
    ensures
        r@ == "Bearer "@ + token@,
{
    let mut out = String::from_str("Bearer ");
    out.append(token);
    out
}

/// The fixed token endpoint.
pub fn token_url() -> (r: String)
    ensures
        r@ == "https://accounts.spotify.com/api/token"@,
{
    String::from_str("https://accounts.spotify.com/api/token")
}

/// The fixed resource endpoint.
pub fn api_url() -> (r: String)
    ensures
        r@ == "https://api.spotify.com/v1/me/player/currently-playing"@,
{
    String::from_str("https://api.spotify.com/v1/me/player/currently-playing")
}

/// The form of the token exchange: a refresh-token grant.
pub fn token_request_form(c: &Config) -> (r: Vec<(String, String)>)
    ensures
        r@.len() == 2,
        r@[0].0@ == "grant_type"@,
        r@[0].1@ == "refresh_token"@,
        r@[1].0@ == "refresh_token"@,
        r@[1].1@ == c.spotify_refresh_token@,
{
    let mut v: Vec<(String, String)> = Vec::new();
    v.push((String::from_str("grant_type"), String::from_str("refresh_token")));
    v.push((String::from_str("refresh_token"), c.spotify_refresh_token.clone()));
    v
}

pub open spec fn is_success(status: u16) -> bool {
    200 <= status < 300
}

/// The token a token-endpoint answer yields, if any.
pub open spec fn spec_token_of_text(s: Seq<char>) -> Option<Seq<char>> {
    match spec_parse_text(s) {
        Some(j) => spec_token_of(j),
        None => None,
    }
}

/// Decides on the token endpoint's answer: only a success status with a body
/// carrying `access_token` yields a token; any other status is an upstream
/// auth failure, and a success status with an unreadable body a protocol
/// error.
pub fn token_response_step(status: u16, body: &str) -> (r: Result<TokenResponse, AppError>)
    ensures
        !is_success(status) ==> r == Err::<TokenResponse, AppError>(AppError::UpstreamAuthFailure),
        is_success(status) ==> match spec_token_of_text(body@) {
            Some(tok) => (r matches Ok(t) && t.access_token@ == tok),
            None => r == Err::<TokenResponse, AppError>(AppError::UpstreamProtocolError),
        },
{
    if !(200 <= status && status < 300) {
        return Err(AppError::UpstreamAuthFailure);
    }
    match parse_text(body) {
        Some(j) => match token_of(&j) {
            Some(t) => Ok(t),
            None => Err(AppError::UpstreamProtocolError),
        },
        None => Err(AppError::UpstreamProtocolError),
    }
}

/// The payload a resource-endpoint answer yields, if any.
pub open spec fn spec_payload_of_text(s: Seq<char>) -> Option<crate::models::PlayingV> {
    match spec_parse_text(s) {
        Some(j) => spec_payload_of(j),
        None => None,
    }
}

/// Decides on the resource endpoint's answer: a no-content status is the
/// canonical not-playing answer whatever the body holds; any other
/// non-success status is a fetch failure; a success status normalizes the
/// payload, or is a protocol error if the body cannot be read.
pub fn resource_response_step(status: u16, body: &str) -> (r: Result<NowPlayingResponse, AppError>)
    ensures
        status == 204 ==> (r matches Ok(n) && n@ == RespV::not_playing()),
        status != 204 && !is_success(status) ==> r == Err::<NowPlayingResponse, AppError>(
            AppError::UpstreamFetchFailure,
        ),
        status != 204 && is_success(status) ==> match spec_payload_of_text(body@) {
            Some(pv) => (r matches Ok(n) && n@ == spec_normalize(pv)),
            None => r == Err::<NowPlayingResponse, AppError>(AppError::UpstreamProtocolError),
        },
{
    if status == 204 {
        return Ok(NowPlayingResponse::not_playing());
    }
    if !(200 <= status && status < 300) {
        return Err(AppError::UpstreamFetchFailure);
    }
    match parse_text(body) {
        Some(j) => match payload_of(&j) {
            Some(p) => Ok(normalize(&p)),
            None => Err(AppError::UpstreamProtocolError),
        },
        None => Err(AppError::UpstreamProtocolError),
    }
}

/// Law: every upstream refusal — a refused token exchange, a refused fetch,
/// or an unreadable upstream body — maps to the bad-gateway status. Together
/// with the contract of `token_response_step`, a token-endpoint answer
/// outside the success range can only end the request as a 502: no token is
/// ever handed on to the resource fetch.
pub proof fn lemma_upstream_refusals_are_bad_gateway()
    ensures
        AppError::UpstreamAuthFailure.spec_status() == 502,
        AppError::UpstreamFetchFailure.spec_status() == 502,
        AppError::UpstreamProtocolError.spec_status() == 502,
{
}

pub open spec fn is_digit(c: char) -> bool {
    '0' as u32 <= c as u32 && c as u32 <= '9' as u32
}

pub open spec fn all_digits(s: Seq<char>) -> bool {
    forall|i: int| 0 <= i < s.len() ==> is_digit(s[i])
}

/// The value of a decimal numeral, most significant digit first.
pub open spec fn dec_val(s: Seq<char>) -> nat
    decreases s.len(),
{
    if s.len() == 0 {
        0
    } else {
        (dec_val(s.subrange(0, s.len() - 1)) * 10 + (s[s.len() - 1] as u32 - '0' as u32)) as nat
    }
}

proof fn lemma_dec_val_monotone(s: Seq<char>, i: int)
    requires
        0 <= i <= s.len(),
        all_digits(s),
    ensures
        dec_val(s.subrange(0, i)) <= dec_val(s),
    decreases s.len() - i,
{
    if i < s.len() {
        lemma_dec_val_monotone(s, i + 1);
        assert(s.subrange(0, i + 1).subrange(0, i) =~= s.subrange(0, i));
        assert(dec_val(s.subrange(0, i + 1)) == dec_val(s.subrange(0, i)) * 10 + (
        s.subrange(0, i + 1)[i] as u32 - '0' as u32));
    } else {
        assert(s.subrange(0, s.len() as int) =~= s);
    }
}

/// The port a `PORT` value names: a non-empty decimal numeral no greater
/// than 65535.
pub open spec fn spec_port_of(s: Seq<char>) -> Option<u16> {
    if s.len() > 0 && all_digits(s) && dec_val(s) <= 65535 {
        Some(dec_val(s) as u16)
    } else {
        None
    }
}

/// Reads the configured port: absent means the default 8080; anything not a
/// small decimal numeral is a configuration error.
pub fn parse_port(s: Option<&str>) -> (r: Result<u16, AppError>)
    ensures
        s is None ==> r == Ok::<u16, AppError>(8080u16),
        s matches Some(t) ==> match spec_port_of(t@) {
            Some(p) => r == Ok::<u16, AppError>(p),
            None => (r matches Err(e) && e matches AppError::ConfigurationError(m) && m@
                == "PORT is not a valid port number"@),
        },
{
    let t = match s {
        None => {
            return Ok(8080);
        },
        Some(t) => t,
    };
    let n = t.unicode_len();
    if n == 0 {
        return Err(AppError::ConfigurationError(String::from_str(
            "PORT is not a valid port number",
        )));
    }
    let mut acc: u32 = 0;
    let mut i: usize = 0;
    while i < n
        invariant
            s == Some(t),
            0 <= i <= n,
            n == t@.len(),
            acc == dec_val(t@.subrange(0, i as int)),
            acc <= 65535,
            all_digits(t@.subrange(0, i as int)),
        decreases n - i,
    {
        let c = t.get_char(i);
        if !('0' <= c && c <= '9') {
            proof {
                assert(!is_digit(t@[i as int]));
            }
            return Err(AppError::ConfigurationError(String::from_str(
                "PORT is not a valid port number",
            )));
        }
        let d = c as u32 - '0' as u32;
        acc = acc * 10 + d;
        proof {
            assert(t@.subrange(0, i as int + 1).subrange(0, i as int) =~= t@.subrange(
                0,
                i as int,
            ));
            assert(t@.subrange(0, i as int + 1)[i as int] == t@[i as int]);
        }
        i = i + 1;
        if acc > 65535 {
            proof {
                if all_digits(t@) {
                    lemma_dec_val_monotone(t@, i as int);
                }
            }
            return Err(AppError::ConfigurationError(String::from_str(
                "PORT is not a valid port number",
            )));
        }
    }
    proof {
        assert(t@.subrange(0, n as int) =~= t@);
    }
    Ok(acc as u16)
}

} // verus!
