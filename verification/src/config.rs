//! The settings of the server, from text or by default.

use vstd::prelude::*;

verus! {

/// The number that `str::parse::<u64>` reads from a text, if it reads one.
pub uninterp spec fn decimal_u64(text: Seq<char>) -> Option<u64>;

/// `str::parse::<u64>`: the number that the text spells, or `None` where the
/// text spells none that fits. The same text always gives the same answer.
#[verifier::external_body]
fn parse_u64(text: &str) -> (number: Option<u64>)
    ensures
        number == decimal_u64(text@),
{
    match text.parse::<u64>() {
        Ok(n) => Some(n),
        Err(_) => None,
    }
}

/// The setting that a text gives: the number it spells, if it spells one no
/// larger than `limit`; else `fallback`, as where there is no text.
pub open spec fn setting(text: Option<Seq<char>>, limit: u64, fallback: u64) -> u64 {
    match text {
        Some(t) => match decimal_u64(t) {
            Some(n) => if n <= limit {
                n
            } else {
                fallback
            },
            None => fallback,
        },
        None => fallback,
    }
}

/// A text, if any, as its sequence of characters.
pub open spec fn given(text: Option<&str>) -> Option<Seq<char>> {
    match text {
        Some(t) => Some(t@),
        None => None,
    }
}

/// Reads one setting.
fn read_setting(text: Option<&str>, limit: u64, fallback: u64) -> (value: u64)
    requires
        fallback <= limit,
    ensures
        value == setting(given(text), limit, fallback),
        value <= limit,
{
    match text {
        Some(t) => match parse_u64(t) {
            Some(n) => if n <= limit {
                n
            } else {
                fallback
            },
            None => fallback,
        },
        None => fallback,
    }
}

/// The settings of the server.
#[derive(Debug, Clone)]
pub struct Config {
    /// How many entries the cache may hold.
    pub max_entries: usize,
    /// Seconds that an entry lives where a request names no other time.
    pub default_ttl: u64,
    /// The port to listen on.
    pub server_port: u16,
    /// Seconds between two sweeps of expired entries.
    pub cleanup_interval: u64,
}

impl Default for Config {
    fn default() -> (config: Self)
        ensures
            config == Config::defaults(),
    {
        Config { max_entries: 1000, default_ttl: 300, server_port: 3000, cleanup_interval: 1 }
    }
}

impl Config {
    /// The settings used where nothing else is given: 1000 entries, 300
    /// seconds to live, port 3000, a sweep every second.
    pub open spec fn defaults() -> Config {
        Config { max_entries: 1000, default_ttl: 300, server_port: 3000, cleanup_interval: 1 }
    }

    /// The settings that four optional texts give. A text that is absent,
    /// spells no number, or spells one too large for its setting leaves that
    /// setting at its default.
    pub fn from_values(
        max_entries: Option<&str>,
        default_ttl: Option<&str>,
        server_port: Option<&str>,
        cleanup_interval: Option<&str>,
    ) -> (config: Self)
        ensures
            config.max_entries == setting(given(max_entries), usize::MAX as u64, 1000),
            config.default_ttl == setting(given(default_ttl), u64::MAX, 300),
            config.server_port == setting(given(server_port), u16::MAX as u64, 3000),
            config.cleanup_interval == setting(given(cleanup_interval), u64::MAX, 1),
    {
        Config {
            max_entries: read_setting(max_entries, usize::MAX as u64, 1000) as usize,
            default_ttl: read_setting(default_ttl, u64::MAX, 300),
            server_port: read_setting(server_port, u16::MAX as u64, 3000) as u16,
            cleanup_interval: read_setting(cleanup_interval, u64::MAX, 1),
        }
    }
}

} // verus!
