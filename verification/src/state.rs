use vstd::prelude::*;

use crate::models::{opt_chars, opt_str_chars};
use crate::validation::{normalize_optional, normalized_optional};

verus! {

/// The id under which the host knows this app.
pub const PLUGIN_ID: &'static str = "@ryu/expenses";

/// The port the sidecar listens on when none is configured.
pub const DEFAULT_PORT: u16 = 8017;

/// The start of an `Authorization` header that carries a bearer token.
pub const BEARER_PREFIX: &'static str = "Bearer ";

/// How the sidecar is configured: its port, and the token that callers must present.
#[derive(Debug, Clone)]
pub struct Config {
    pub port: u16,
    pub token: Option<String>,
}

impl Config {
    /// The configuration for `port` with the token as the environment gives it: trimmed,
    /// and absent where nothing but white space is given.
    pub fn from_token(port: u16, raw_token: Option<String>) -> (r: Config)
        ensures
            r.port == port,
            opt_chars(r.token) == normalized_optional(opt_chars(raw_token)),
    {
        Config { port, token: normalize_optional(raw_token) }
    }
}

/// The token of an `Authorization` header: what follows `Bearer `, where the header
/// starts with it.
pub open spec fn bearer_token(header: Option<Seq<char>>) -> Option<Seq<char>> {
    let p = BEARER_PREFIX@;
    match header {
        Some(h) => if h.len() >= p.len() && h.subrange(0, p.len() as int) == p {
            Some(h.subrange(p.len() as int, h.len() as int))
        } else {
            None
        },
        None => None,
    }
}

/// Reads the bearer token of an `Authorization` header's value.
pub fn bearer_of(authorization: Option<&str>) -> (r: Option<String>)
    ensures
        opt_chars(r) == bearer_token(opt_str_chars(authorization)),
{
    match authorization {
        Some(h) => {
            let n = h.unicode_len();
            let p = BEARER_PREFIX.unicode_len();
            if n >= p && crate::text::str_equal(h.substring_char(0, p), BEARER_PREFIX) {
                Some(h.substring_char(p, n).to_owned())
            } else {
                None
            }
        },
        None => None,
    }
}

} // verus!
