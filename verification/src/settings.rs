//! Numeric settings read from the environment: a value that does not parse
//! falls back to the default.

use vstd::prelude::*;
use crate::decimal::{parse_u64, parsed_u64, decimal_text, lemma_decimal_text_reads_back};

verus! {

/// Default spacing between two chain requests, in milliseconds.
pub const DEFAULT_RPC_INTERVAL_MS: u64 = 50;

/// Default pause between two sync cycles, in seconds.
pub const DEFAULT_REFRESH_SECS: u64 = 600;

/// Default port of the web server.
pub const DEFAULT_PORT: u16 = 8080;

/// The value of a numeric setting: the text parsed as `u64`, or `default`
/// where the setting is absent or does not parse.
pub open spec fn u64_setting_value(text: Option<Seq<char>>, default: u64) -> u64 {
    match text {
        Some(t) => match parsed_u64(t) {
            Some(v) => v,
            None => default,
        },
        None => default,
    }
}

/// The view of an optional text.
pub open spec fn text_of(value: Option<&str>) -> Option<Seq<char>> {
    match value {
        Some(t) => Some(t@),
        None => None,
    }
}

/// Reads a `u64` setting, as `value.parse::<u64>().ok().unwrap_or(default)`.
pub fn u64_setting(value: Option<&str>, default: u64) -> (r: u64)
    ensures
        r == u64_setting_value(text_of(value), default),
        value is Some && parsed_u64(value->0@) is Some ==> r == parsed_u64(value->0@)->0,
        value is None || parsed_u64(value->0@) is None ==> r == default,
{
    match value {
        Some(t) => match parse_u64(t) {
            Some(v) => v,
            None => default,
        },
        None => default,
    }
}

/// The spacing between chain requests (`INGEST_RPC_INTERVAL_MS`), in milliseconds.
pub fn rpc_interval_ms(value: Option<&str>) -> (r: u64)
    ensures
        r == u64_setting_value(text_of(value), DEFAULT_RPC_INTERVAL_MS),
        value is Some && parsed_u64(value->0@) is Some ==> r == parsed_u64(value->0@)->0,
        value is None || parsed_u64(value->0@) is None ==> r == 50,
{
    u64_setting(value, DEFAULT_RPC_INTERVAL_MS)
}

/// The pause between sync cycles (`INGEST_REFRESH_SECS`), in seconds.
pub fn refresh_secs(value: Option<&str>) -> (r: u64)
    ensures
        r == u64_setting_value(text_of(value), DEFAULT_REFRESH_SECS),
        value is Some && parsed_u64(value->0@) is Some ==> r == parsed_u64(value->0@)->0,
        value is None || parsed_u64(value->0@) is None ==> r == 600,
{
    u64_setting(value, DEFAULT_REFRESH_SECS)
}

/// The port of the web server (`PORT`): the text parsed as `u16`, as
/// `value.parse::<u16>().ok()`, or 8080.
pub fn listen_port(value: Option<&str>) -> (r: u16)
    ensures
        r == (match text_of(value) {
            Some(t) => match parsed_u64(t) {
                Some(v) => if v <= u16::MAX {
                    v as u16
                } else {
                    DEFAULT_PORT
                },
                None => DEFAULT_PORT,
            },
            None => DEFAULT_PORT,
        }),
{
    match value {
        Some(t) => match parse_u64(t) {
            Some(v) => if v <= 65535 {
                v as u16
            } else {
                DEFAULT_PORT
            },
            None => DEFAULT_PORT,
        },
        None => DEFAULT_PORT,
    }
}


/// A setting written as the decimal text of any `u64` is read as that
/// number, whatever the default; an absent setting gives the default.
pub proof fn lemma_setting_reads_its_number(n: u64, default: u64)
    ensures
        u64_setting_value(Some(decimal_text(n as nat)), default) == n,
        u64_setting_value(None, default) == default,
{
    lemma_decimal_text_reads_back(n as nat);
}

} // verus!
