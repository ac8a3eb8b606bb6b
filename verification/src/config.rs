//! The relay's settings, from the values of its environment variables.

use vstd::prelude::*;
use crate::text::parse_u64;

verus! {

/// The address the relay listens on when none is set.
pub open spec fn default_bind() -> Seq<char> {
    "0.0.0.0:7070"@
}

/// The request timeout when none is set: one hour.
pub const DEFAULT_REQUEST_TIMEOUT_SECONDS: u64 = 3600;

/// The body limit when none is set: 5 GiB.
pub const DEFAULT_MAX_BODY_BYTES: u64 = 5368709120;

/// The relay's settings.
pub struct Config {
    /// The address to listen on, as text.
    pub bind: String,
    /// The token that devices present to open a tunnel.
    pub shared_token: String,
    /// How long a request waits for the start of its response.
    pub request_timeout_seconds: u64,
    /// The most request-body bytes forwarded to a device.
    pub max_body_bytes: u64,
}

/// Why the settings are refused.
pub enum ConfigError {
    /// The listen address does not parse as a socket address.
    InvalidBind,
    /// `PCLOUD_RELAY_TOKEN` is not set.
    MissingToken,
}

impl ConfigError {
    /// The error text of a missing token; an invalid listen address is
    /// reported with the parse error of the address.
    pub fn message(&self) -> (r: String)
        ensures
            *self is MissingToken ==> r@ == "PCLOUD_RELAY_TOKEN must be set"@,
            *self is InvalidBind ==> r@ == "invalid socket address syntax"@,
    {
        match self {
            ConfigError::MissingToken => "PCLOUD_RELAY_TOKEN must be set".to_owned(),
            ConfigError::InvalidBind => "invalid socket address syntax".to_owned(),
        }
    }
}

/// A setting read as a number, with a default where it is unset or not a
/// number.
pub open spec fn number_or(value: Option<String>, default: u64) -> u64 {
    match value {
        Some(v) => match crate::text::parse_u64_spec(v@) {
            Some(n) => n,
            None => default,
        },
        None => default,
    }
}

/// The listen address text: the one set, else `0.0.0.0:7070`.
pub fn bind_text(bind: Option<String>) -> (r: String)
    ensures
        r@ == (match bind {
            Some(b) => b@,
            None => default_bind(),
        }),
{
    match bind {
        Some(b) => b,
        None => "0.0.0.0:7070".to_owned(),
    }
}

impl Config {
    /// The settings from the listen address (with whether it parses as a
    /// socket address) and the values of `PCLOUD_RELAY_TOKEN`,
    /// `PCLOUD_RELAY_REQUEST_TIMEOUT_SECONDS` and `PCLOUD_RELAY_MAX_BODY_BYTES`:
    /// refused exactly when the address does not parse (checked first) or
    /// the token is unset; numbers that are unset or do not parse take their
    /// defaults.
    pub fn from_settings(
        bind: String,
        bind_parses: bool,
        shared_token: Option<String>,
        request_timeout_seconds: Option<String>,
        max_body_bytes: Option<String>,
    ) -> (r: Result<Config, ConfigError>)
        ensures
            r is Err <==> !bind_parses || shared_token is None,
            r matches Err(e) ==> ((e is InvalidBind) <==> !bind_parses),
            r matches Ok(c) ==> {
                &&& c.bind@ == bind@
                &&& Some(c.shared_token) == shared_token
                &&& c.request_timeout_seconds == number_or(
                    request_timeout_seconds,
                    DEFAULT_REQUEST_TIMEOUT_SECONDS,
                )
                &&& c.max_body_bytes == number_or(max_body_bytes, DEFAULT_MAX_BODY_BYTES)
            },
    {
        if !bind_parses {
            return Err(ConfigError::InvalidBind);
        }
        let shared_token = match shared_token {
            Some(t) => t,
            None => {
                return Err(ConfigError::MissingToken);
            },
        };
        let timeout = match request_timeout_seconds {
            Some(v) => match parse_u64(v.as_str()) {
                Some(n) => n,
                None => DEFAULT_REQUEST_TIMEOUT_SECONDS,
            },
            None => DEFAULT_REQUEST_TIMEOUT_SECONDS,
        };
        let max_body = match max_body_bytes {
            Some(v) => match parse_u64(v.as_str()) {
                Some(n) => n,
                None => DEFAULT_MAX_BODY_BYTES,
            },
            None => DEFAULT_MAX_BODY_BYTES,
        };
        Ok(
            Config {
                bind,
                shared_token,
                request_timeout_seconds: timeout,
                max_body_bytes: max_body,
            },
        )
    }
}

/// A setting that parses as a number is taken as that number, whatever
/// its default: a set value is never replaced or capped.
pub proof fn law_parsed_setting_taken_as_is(value: String, n: u64, default: u64)
    requires
        crate::text::parse_u64_spec(value@) == Some(n),
    ensures
        number_or(Some(value), default) == n,
{
}

/// A setting written as the decimal text of a number is taken as that
/// number, whatever its default.
pub proof fn law_decimal_setting_taken_as_is(value: String, n: u64, default: u64)
    requires
        value@ == crate::text::decimal(n as nat),
    ensures
        number_or(Some(value), default) == n,
{
    crate::text::law_parse_decimal(n);
}

/// Only an unset setting, or one that does not parse, takes the default.
pub proof fn law_default_only_when_unset_or_unparsable(value: Option<String>, default: u64)
    requires
        number_or(value, default) != default,
    ensures
        value matches Some(v) && crate::text::parse_u64_spec(v@) == Some(
            number_or(value, default),
        ),
{
}

} // verus!
