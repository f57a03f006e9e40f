//! The settings of the service: what the command line gives, what the
//! environment overrides, and what holds where neither says anything.

use vstd::prelude::*;
use crate::decimal::{parse_u64, u64_in};
use crate::time::TimeSpan;

verus! {

/// The settings as the command line gives them.
#[derive(Debug, PartialEq, Eq)]
pub struct Args {
    /// How long an expiry date is kept, in seconds.
    pub cache_ttl: u64,
    /// How long a lookup may take, in seconds.
    pub whois_timeout: u64,
    /// The address and port on which the service listens.
    pub listen_addr: String,
}

/// The settings as the environment gives them, each as the text of its
/// variable, or nothing where the variable is not set.
#[derive(Debug, PartialEq, Eq)]
pub struct Environment {
    /// `CACHE_TTL`, in seconds.
    pub cache_ttl: Option<String>,
    /// `WHOIS_TIMEOUT`, in seconds.
    pub whois_timeout: Option<String>,
    /// `LISTEN_ADDR`.
    pub listen_addr: Option<String>,
}

/// The settings in force.
#[derive(Debug, PartialEq, Eq)]
pub struct Config {
    /// How long an expiry date is kept.
    pub cache_ttl: TimeSpan,
    /// How long a lookup may take.
    pub whois_timeout: TimeSpan,
    /// The address and port on which the service listens.
    pub listen_addr: String,
}

/// The seconds in force for one setting: those that the environment names,
/// where it names a number, else those of the command line.
pub open spec fn seconds_in_force(given: Option<String>, fallback: u64) -> u64 {
    match given {
        Some(text) => match u64_in(text@) {
            Some(secs) => secs,
            None => fallback,
        },
        None => fallback,
    }
}

/// The address in force: that of the environment where it names one, else
/// that of the command line.
pub open spec fn address_in_force(given: Option<String>, fallback: String) -> Seq<char> {
    match given {
        Some(text) => text@,
        None => fallback@,
    }
}

/// The span of `secs` whole seconds.
pub open spec fn span_of_secs(secs: u64) -> TimeSpan {
    TimeSpan { nanos: (secs * 1_000_000_000) as u128 }
}

impl Config {
    /// The settings in force where the command line gives `args` and the
    /// environment `env`: the environment wins, but a number that cannot be
    /// read in it is passed over.
    pub fn from_args(args: Args, env: Environment) -> (config: Self)
        ensures
            config.cache_ttl == span_of_secs(seconds_in_force(env.cache_ttl, args.cache_ttl)),
            config.whois_timeout == span_of_secs(
                seconds_in_force(env.whois_timeout, args.whois_timeout),
            ),
            config.listen_addr@ == address_in_force(env.listen_addr, args.listen_addr),
    {
        let cache_ttl: u64 = seconds_setting(&env.cache_ttl, args.cache_ttl);
        let whois_timeout: u64 = seconds_setting(&env.whois_timeout, args.whois_timeout);
        let listen_addr: String = match env.listen_addr {
            Some(text) => text,
            None => args.listen_addr,
        };
        Config {
            cache_ttl: TimeSpan::from_secs(cache_ttl),
            whois_timeout: TimeSpan::from_secs(whois_timeout),
            listen_addr,
        }
    }
}

/// The seconds in force for one setting.
pub fn seconds_setting(given: &Option<String>, fallback: u64) -> (secs: u64)
    ensures
        secs == seconds_in_force(*given, fallback),
{
    match given {
        Some(text) => match parse_u64(text.as_str()) {
            Some(secs) => secs,
            None => fallback,
        },
        None => fallback,
    }
}

impl Default for Config {
    /// The settings that hold where nothing is given: expiry dates are kept
    /// for a day, a lookup may take ten seconds, and the service listens on
    /// port 9222 of every address.
    fn default() -> (config: Self)
        ensures
            config.cache_ttl == span_of_secs(86_400),
            config.whois_timeout == span_of_secs(10),
            config.listen_addr@ == "0.0.0.0:9222"@,
    {
        Config {
            cache_ttl: TimeSpan::from_secs(24 * 3600),
            whois_timeout: TimeSpan::from_secs(10),
            listen_addr: String::from_str("0.0.0.0:9222"),
        }
    }
}

} // verus!
