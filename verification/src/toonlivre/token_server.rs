//! ToonLivre: the token server's configuration and its endpoint addresses.

use crate::model::opt_view;
use crate::text::{append, chars_of, string_of, trim_end_matches, trim_end_matches_chars, trim_start_matches, trim_start_matches_chars};
use vstd::prelude::*;

verus! {

/// The token server's endpoints.
#[derive(Clone, Debug)]
pub struct TokenServerEndpoints {
    pub tokens: String,
    pub health: String,
}

/// Time limits, in seconds.
#[derive(Clone, Debug)]
pub struct TokenServerTimeout {
    pub connect: i32,
    pub request: i32,
}

/// Response caching.
#[derive(Clone, Debug)]
pub struct TokenServerCache {
    pub enabled: bool,
    pub ttl: i32,
}

/// Retrying on failure.
#[derive(Clone, Debug)]
pub struct TokenServerFallback {
    pub enabled: bool,
    pub retry_count: i32,
}

/// The token server's configuration.
#[derive(Clone, Debug)]
pub struct TokenServerConfig {
    pub schema_version: i64,
    pub enabled: bool,
    pub host: String,
    pub endpoints: TokenServerEndpoints,
    pub timeout: TokenServerTimeout,
    pub cache: TokenServerCache,
    pub fallback: TokenServerFallback,
}

/// The headers the token server hands out.
#[derive(Clone, Debug)]
pub struct TokenServerHeaders {
    pub signature: String,
    pub verify: String,
}

/// The token server's answer.
#[derive(Clone, Debug)]
pub struct TokenServerResponse {
    pub session: Option<String>,
    pub passphrase: Option<String>,
    pub headers: Option<TokenServerHeaders>,
    pub strategy: Option<String>,
    pub expires_at: Option<i64>,
    pub cached: bool,
    pub expires_in: i32,
}

/// The token server's answer to a decryption request.
#[derive(Clone, Debug)]
pub struct DecryptResponse {
    pub decrypted: String,
}

/// Whether the token server is used: only with a configuration that enables it.
pub fn token_server_enabled(config: Option<&TokenServerConfig>) -> (r: bool)
    ensures
        r == (config matches Some(c) && c.enabled),
{
    match config {
        Some(c) => c.enabled,
        None => false,
    }
}

/// An endpoint's address: the host without trailing slashes, `/`, and the
/// endpoint without leading slashes.
pub open spec fn endpoint_url(host: Seq<char>, endpoint: Seq<char>) -> Seq<char> {
    trim_end_matches(host, '/') + seq!['/'] + trim_start_matches(endpoint, '/')
}

/// The address of an endpoint of the configured token server.
pub fn token_server_url(config: Option<&TokenServerConfig>, endpoint: &str) -> (r: Option<String>)
    ensures
        match config {
            Some(c) => opt_view(r) == Some(endpoint_url(c.host@, endpoint@)),
            None => r is None,
        },
{
    match config {
        Some(c) => {
            let host = chars_of(c.host.as_str());
            let mut out = trim_end_matches_chars(host.as_slice(), '/');
            out.push('/');
            let e = chars_of(endpoint);
            append(&mut out, trim_start_matches_chars(e.as_slice(), '/').as_slice());
            Some(string_of(out.as_slice()))
        },
        None => None,
    }
}

/// The address of the token endpoint.
pub fn full_tokens_url(config: Option<&TokenServerConfig>) -> (r: Option<String>)
    ensures
        match config {
            Some(c) => opt_view(r) == Some(endpoint_url(c.host@, c.endpoints.tokens@)),
            None => r is None,
        },
{
    match config {
        Some(c) => token_server_url(Some(c), c.endpoints.tokens.as_str()),
        None => None,
    }
}

/// The address of the health endpoint.
pub fn full_health_url(config: Option<&TokenServerConfig>) -> (r: Option<String>)
    ensures
        match config {
            Some(c) => opt_view(r) == Some(endpoint_url(c.host@, c.endpoints.health@)),
            None => r is None,
        },
{
    match config {
        Some(c) => token_server_url(Some(c), c.endpoints.health.as_str()),
        None => None,
    }
}

} // verus!
