//! Process configuration: raw environment values in, a validated immutable
//! `Config` out. The environment itself is read by the surrounding program;
//! this module only decides defaults, validation and numeric parsing.

use crate::bytestr::parse_u64_dec;
use crate::bytestr::parse_u64_spec;
use vstd::prelude::*;
use vstd::slice::slice_to_vec;
use vstd::string::StringSliceAdditionalSpecFns;

verus! {

/// Immutable for the process lifetime; every component borrows it.
pub struct Config {
    pub api_key: Vec<u8>,
    pub upstream_url: Vec<u8>,
    pub host: Vec<u8>,
    pub port: u16,
    pub cache_ttl_seconds: u64,
    pub cache_max_capacity: u64,
    pub allowed_origin_suffix: Vec<u8>,
    pub allowed_origin_exact: Vec<u8>,
}

#[derive(Clone, Copy, Debug, PartialEq, Eq)]
pub enum ConfigError {
    MissingApiKey,
    EmptyApiKey,
}

impl ConfigError {
    pub fn message(&self) -> (r: &'static str)
        ensures
            *self is MissingApiKey ==> r@ == "API_KEY environment variable is required"@,
            *self is EmptyApiKey ==> r@ == "API_KEY cannot be empty"@,
    {
        match self {
            ConfigError::MissingApiKey => "API_KEY environment variable is required",
            ConfigError::EmptyApiKey => "API_KEY cannot be empty",
        }
    }
}

/// A raw setting when present, the given fallback otherwise.
pub open spec fn text_or(v: Option<Seq<u8>>, d: Seq<u8>) -> Seq<u8> {
    match v {
        Some(s) => s,
        None => d,
    }
}

/// A setting parsed as a decimal number; absent or unparsable falls back.
pub open spec fn u64_or(v: Option<Seq<u8>>, d: u64) -> u64 {
    match v {
        Some(s) => match parse_u64_spec(s) {
            Some(n) => n,
            None => d,
        },
        None => d,
    }
}

/// As `u64_or`, further restricted to the port range.
pub open spec fn port_or(v: Option<Seq<u8>>, d: u16) -> u16 {
    match v {
        Some(s) => match parse_u64_spec(s) {
            Some(n) => if n <= u16::MAX { n as u16 } else { d },
            None => d,
        },
        None => d,
    }
}

pub open spec fn opt_view(v: Option<Vec<u8>>) -> Option<Seq<u8>> {
    match v {
        Some(s) => Some(s@),
        None => None,
    }
}

fn text_or_default(v: Option<Vec<u8>>, d: &str) -> (r: Vec<u8>)
    ensures
        r@ == text_or(opt_view(v), d.spec_bytes()),
{
    match v {
        Some(s) => s,
        None => slice_to_vec(d.as_bytes()),
    }
}

fn u64_or_default(v: &Option<Vec<u8>>, d: u64) -> (r: u64)
    ensures
        r == u64_or(opt_view(*v), d),
{
    match v {
        Some(s) => match parse_u64_dec(s.as_slice()) {
            Some(n) => n,
            None => d,
        },
        None => d,
    }
}

fn port_or_default(v: &Option<Vec<u8>>, d: u16) -> (r: u16)
    ensures
        r == port_or(opt_view(*v), d),
{
    match v {
        Some(s) => match parse_u64_dec(s.as_slice()) {
            Some(n) => if n <= 65535 {
                n as u16
            } else {
                d
            },
            None => d,
        },
        None => d,
    }
}

impl Config {
    /// Builds the configuration from the raw environment values, applying
    /// each setting's default. The API key is the one required setting:
    /// absent or empty, the process must not start.
    pub fn resolve(
        api_key: Option<Vec<u8>>,
        upstream_url: Option<Vec<u8>>,
        host: Option<Vec<u8>>,
        port: Option<Vec<u8>>,
        cache_ttl_seconds: Option<Vec<u8>>,
        cache_max_capacity: Option<Vec<u8>>,
        allowed_origin_suffix: Option<Vec<u8>>,
        allowed_origin_exact: Option<Vec<u8>>,
    ) -> (r: Result<Config, ConfigError>)
        ensures
            match api_key {
                None => r == Result::<Config, ConfigError>::Err(ConfigError::MissingApiKey),
                Some(k) => if k@.len() == 0 {
                    r == Result::<Config, ConfigError>::Err(ConfigError::EmptyApiKey)
                } else {
                    r matches Ok(c) && {
                &&& c.api_key@ == k@
                &&& c.upstream_url@ == text_or(
                    opt_view(upstream_url),
                    "https://tracker.israeli.ovh".spec_bytes(),
                )
                &&& c.host@ == text_or(opt_view(host), "0.0.0.0".spec_bytes())
                &&& c.port == port_or(opt_view(port), 3000)
                &&& c.cache_ttl_seconds == u64_or(opt_view(cache_ttl_seconds), 600)
                &&& c.cache_max_capacity == u64_or(opt_view(cache_max_capacity), 10000)
                &&& c.allowed_origin_suffix@ == text_or(
                    opt_view(allowed_origin_suffix),
                    ".artistgrid.".spec_bytes(),
                )
                &&& c.allowed_origin_exact@ == text_or(
                    opt_view(allowed_origin_exact),
                        "artistgrid.cx".spec_bytes(),
                    )
                    }
                },
            },
    {
        let key = match api_key {
            None => {
                return Err(ConfigError::MissingApiKey);
            },
            Some(k) => k,
        };
        if key.len() == 0 {
            return Err(ConfigError::EmptyApiKey);
        }
        Ok(
            Config {
                api_key: key,
                upstream_url: text_or_default(upstream_url, "https://tracker.israeli.ovh"),
                host: text_or_default(host, "0.0.0.0"),
                port: port_or_default(&port, 3000),
                cache_ttl_seconds: u64_or_default(&cache_ttl_seconds, 600),
                cache_max_capacity: u64_or_default(&cache_max_capacity, 10000),
                allowed_origin_suffix: text_or_default(allowed_origin_suffix, ".artistgrid."),
                allowed_origin_exact: text_or_default(allowed_origin_exact, "artistgrid.cx"),
            },
        )
    }
}

} // verus!
