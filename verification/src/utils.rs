//! Time stamps as text, and bytes written as text.
//!
//! A time is written as `2020-01-31T23:59:59`, in UTC, with a fraction of a
//! second after the seconds where the time has one. The calendar is that of
//! the `chrono` crate.
use vstd::prelude::*;
use vstd::string::*;
use vstd::utf8::encode_utf8;
use crate::chain_text::{hex_decode, hex_decoded};
use crate::text::str_eq;

verus! {

/// Seconds from 1970 to the time that a text stands for, where it is the
/// text of a time without a fraction of a second.
pub uninterp spec fn seconds_of_text(ts: Seq<char>) -> Option<i64>;

/// `chrono::NaiveDateTime::parse_from_str` with the format
/// `%Y-%m-%dT%H:%M:%S`, and the seconds from 1970 to the time that it gives,
/// read as UTC; nothing where `ts` is not such a text.
#[verifier::external_body]
fn parse_seconds(ts: &str) -> (r: Option<i64>)
    ensures
        r == seconds_of_text(ts@),
{
    match chrono::NaiveDateTime::parse_from_str(ts, "%Y-%m-%dT%H:%M:%S") {
        Ok(time) => Some(time.and_utc().timestamp()),
        Err(_) => None,
    }
}

/// Microseconds from 1970 to the time that a text stands for, where it is
/// the text of a time with or without a fraction of a second.
pub uninterp spec fn micros_of_text(ts: Seq<char>) -> Option<i64>;

/// `chrono::NaiveDateTime::parse_from_str` with the format
/// `%Y-%m-%dT%H:%M:%S%.f`, and the microseconds from 1970 to the time that
/// it gives, read as UTC; nothing where `ts` is not such a text.
#[verifier::external_body]
fn parse_micros(ts: &str) -> (r: Option<i64>)
    ensures
        r == micros_of_text(ts@),
{
    match chrono::NaiveDateTime::parse_from_str(ts, "%Y-%m-%dT%H:%M:%S%.f") {
        Ok(time) => Some(time.and_utc().timestamp_micros()),
        Err(_) => None,
    }
}

/// The text of the time that is `seconds` seconds from 1970, where the
/// calendar reaches it.
pub uninterp spec fn text_of_seconds(seconds: i64) -> Option<Seq<char>>;

/// `chrono::DateTime::from_timestamp` and its text in the format
/// `%Y-%m-%dT%H:%M:%S`; nothing where the time is out of range.
#[verifier::external_body]
fn format_seconds(seconds: i64) -> (r: Option<String>)
    ensures
        match r {
            Some(text) => text_of_seconds(seconds) == Some(text@),
            None => text_of_seconds(seconds).is_none(),
        },
{
    match chrono::DateTime::from_timestamp(seconds, 0) {
        Some(time) => Some(time.format("%Y-%m-%dT%H:%M:%S").to_string()),
        None => None,
    }
}

/// The text, to the millisecond, of the time that is `micros` microseconds
/// from 1970, where the calendar reaches it.
pub uninterp spec fn text_of_micros(micros: i64) -> Option<Seq<char>>;

/// `chrono::DateTime::from_timestamp_micros` and its text in the format
/// `%Y-%m-%dT%H:%M:%S%.3f`; nothing where the time is out of range.
#[verifier::external_body]
fn format_micros(micros: i64) -> (r: Option<String>)
    ensures
        match r {
            Some(text) => text_of_micros(micros) == Some(text@),
            None => text_of_micros(micros).is_none(),
        },
{
    match chrono::DateTime::from_timestamp_micros(micros) {
        Some(time) => Some(time.format("%Y-%m-%dT%H:%M:%S%.3f").to_string()),
        None => None,
    }
}

/// The low 32 bits of a count of seconds.
pub open spec fn wrap32(seconds: int) -> u32 {
    (seconds % 0x1_0000_0000) as u32
}

/// The low 32 bits of a count of seconds.
pub fn low_32_bits(seconds: i64) -> (r: u32)
    ensures
        r == wrap32(seconds as int),
{
    if seconds >= 0 {
        ((seconds as u64) % 0x1_0000_0000) as u32
    } else {
        let below: u64 = (-(seconds + 1)) as u64;
        let m: u64 = below % 0x1_0000_0000;
        assert((seconds as int) % 0x1_0000_0000 == 0xffff_ffff - m) by {
            let k = (-(seconds + 1)) as int;
            assert(seconds as int == -(k + 1));
            let q = k / 0x1_0000_0000;
            assert(k == q * 0x1_0000_0000 + m);
            assert(seconds as int == (-q - 1) * 0x1_0000_0000 + (0xffff_ffff - m));
            vstd::arithmetic::div_mod::lemma_fundamental_div_mod_converse(
                seconds as int,
                0x1_0000_0000,
                -q - 1,
                0xffff_ffff - m,
            );
        }
        (0xffff_ffff - m) as u32
    }
}

/// The seconds from 1970, cut to 32 bits, of the time that `ts` is the text
/// of. The text is one that stands for a time.
pub fn str_to_timestamp(ts: &str) -> (r: u32)
    requires
        seconds_of_text(ts@).is_some(),
    ensures
        r == wrap32(seconds_of_text(ts@).unwrap() as int),
{
    match parse_seconds(ts) {
        Some(seconds) => low_32_bits(seconds),
        None => 0,
    }
}

/// The seconds from 1970, cut to 32 bits, of the time that `ts` is the text
/// of, if it is one.
pub fn try_str_to_timestamp(ts: &str) -> (r: Option<u32>)
    ensures
        r == match seconds_of_text(ts@) {
            Some(seconds) => Some(wrap32(seconds as int)),
            None => None,
        },
{
    if parse_seconds(ts).is_some() {
        Some(str_to_timestamp(ts))
    } else {
        None
    }
}

/// The microseconds from 1970 of the time that `ts` is the text of, if it
/// is one and not before 1970.
pub open spec fn time_point_of_text(ts: Seq<char>) -> Option<u64> {
    match micros_of_text(ts) {
        Some(micros) => if micros >= 0 {
            Some(micros as u64)
        } else {
            None
        },
        None => None,
    }
}

/// The microseconds from 1970 of the time that `ts` is the text of, if it
/// is one and not before 1970.
pub fn str_to_time_point(ts: &str) -> (r: Option<u64>)
    ensures
        r == time_point_of_text(ts@),
{
    match parse_micros(ts) {
        Some(micros) => {
            if micros >= 0 {
                Some(micros as u64)
            } else {
                None
            }
        },
        None => None,
    }
}

/// The text of the time that is `seconds` seconds from 1970.
pub fn timestamp_to_str(seconds: u32) -> (r: Option<String>)
    ensures
        match r {
            Some(text) => text_of_seconds(seconds as i64) == Some(text@),
            None => text_of_seconds(seconds as i64).is_none(),
        },
{
    format_seconds(seconds as i64)
}

/// The text of the time that is `micros` microseconds from 1970, where
/// the count fits in 63 bits.
pub open spec fn text_of_time_point(micros: u64) -> Option<Seq<char>> {
    if micros <= i64::MAX {
        text_of_micros(micros as i64)
    } else {
        None
    }
}

/// The text, to the millisecond, of the time that is `micros` microseconds
/// from 1970.
pub fn time_point_to_str(micros: u64) -> (r: Option<String>)
    ensures
        match r {
            Some(text) => text_of_time_point(micros) == Some(text@),
            None => text_of_time_point(micros).is_none(),
        },
{
    if micros <= i64::MAX as u64 {
        format_micros(micros as i64)
    } else {
        None
    }
}

/// Seconds from 1970 to the start of the year 2000, from which block
/// time stamps count.
pub const BLOCK_EPOCH: u32 = 946_684_800;

/// The block time stamp, in half seconds from the year 2000, of the time
/// that is `seconds` seconds from 1970; nothing before 2000 or where the
/// count does not fit in 32 bits.
pub open spec fn block_slot_spec(seconds: u32) -> Option<u32> {
    if seconds >= BLOCK_EPOCH && (seconds - BLOCK_EPOCH) * 2 <= u32::MAX {
        Some(((seconds - BLOCK_EPOCH) * 2) as u32)
    } else {
        None
    }
}

/// The block time stamp of the time that is `seconds` seconds from 1970.
pub fn block_slot(seconds: u32) -> (r: Option<u32>)
    ensures
        r == block_slot_spec(seconds),
{
    if seconds >= BLOCK_EPOCH && seconds - BLOCK_EPOCH <= u32::MAX / 2 {
        Some((seconds - BLOCK_EPOCH) * 2)
    } else {
        None
    }
}

/// Seconds from 1970 to the time of the block time stamp `slot`.
pub open spec fn block_seconds_spec(slot: u32) -> u32 {
    (slot / 2 + BLOCK_EPOCH) as u32
}

/// Seconds from 1970 to the time of the block time stamp `slot`.
pub fn block_seconds(slot: u32) -> (r: u32)
    ensures
        r == block_seconds_spec(slot),
{
    slot / 2 + BLOCK_EPOCH
}

/// The bytes that a text in base 64, with padding, stands for.
pub uninterp spec fn base64_decoded(s: Seq<char>) -> Option<Seq<u8>>;

/// `base64::Engine::decode` of `base64::engine::general_purpose::STANDARD`:
/// the bytes that `s` stands for, or nothing where `s` is not base 64.
#[verifier::external_body]
fn base64_decode(s: &str) -> (r: Option<Vec<u8>>)
    ensures
        match r {
            Some(bytes) => base64_decoded(s@) == Some(bytes@),
            None => base64_decoded(s@).is_none(),
        },
{
    base64::Engine::decode(&base64::engine::general_purpose::STANDARD, s).ok()
}

/// The bytes that `s` stands for: `default_len` zero bytes where a default
/// length is given and `s` is `0`; else what `s` holds in base 64; else
/// what it holds in hexadecimal; else nothing.
pub open spec fn decode_string_bytes_spec(s: Seq<char>, default_len: Option<usize>) -> Option<
    Seq<u8>,
> {
    if default_len.is_some() && s == "0"@ {
        Some(Seq::new(default_len.unwrap() as nat, |i: int| 0u8))
    } else {
        match base64_decoded(s) {
            Some(bytes) => Some(bytes),
            None => hex_decoded(encode_utf8(s)),
        }
    }
}

/// The bytes that `s` stands for, tried as base 64 first and as hexadecimal
/// second.
pub fn try_decode_string_bytes(s: &str, default_len: Option<usize>) -> (r: Option<Vec<u8>>)
    ensures
        match r {
            Some(bytes) => decode_string_bytes_spec(s@, default_len) == Some(bytes@),
            None => decode_string_bytes_spec(s@, default_len).is_none(),
        },
{
    if let Some(len) = default_len {
        if str_eq(s, "0") {
            let mut zeros: Vec<u8> = Vec::new();
            let mut i: usize = 0;
            while i < len
                invariant
                    0 <= i <= len,
                    zeros@ == Seq::new(i as nat, |k: int| 0u8),
                decreases len - i,
            {
                zeros.push(0u8);
                assert(zeros@ =~= Seq::new((i + 1) as nat, |k: int| 0u8));
                i += 1;
            }
            return Some(zeros);
        }
    }
    match base64_decode(s) {
        Some(bytes) => Some(bytes),
        None => hex_decode(s),
    }
}

} // verus!
