//! Time points: microseconds from the start of 1970.
use vstd::prelude::*;
use vstd::string::*;
use crate::primitive::{decode_u64, encode_u64};
use crate::utils::{
    str_to_time_point, text_of_time_point, time_point_of_text, time_point_to_str,
};
use crate::wire::{le_bytes, le_value};

verus! {

/// A point in time, by its microseconds from 1970.
#[derive(Clone, Copy, Debug, Default, PartialEq, Eq, Structural)]
pub struct TimePoint {
    pub inner: u64,
}

/// What a time point can be made from.
#[derive(Debug)]
pub enum TimePointLike {
    Raw(Vec<u8>),
    Int(u64),
    Str(String),
    Cls(TimePoint),
}

/// The time point that the first eight bytes hold.
pub open spec fn time_point_of_bytes(buffer: Seq<u8>) -> Option<TimePoint> {
    if buffer.len() >= 8 {
        Some(TimePoint { inner: le_value(buffer.subrange(0, 8)) as u64 })
    } else {
        None
    }
}

/// The time point that a text stands for, if it stands for one.
pub open spec fn time_point_text(s: Seq<char>) -> Option<TimePoint> {
    match time_point_of_text(s) {
        Some(micros) => Some(TimePoint { inner: micros }),
        None => None,
    }
}

impl TimePoint {
    /// The time point that the first eight bytes of `buffer` hold, least
    /// significant first; nothing where there are fewer.
    pub fn from_bytes(buffer: &[u8]) -> (r: Option<TimePoint>)
        ensures
            r == time_point_of_bytes(buffer@),
    {
        if buffer.len() >= 8 {
            Some(TimePoint { inner: decode_u64(buffer) })
        } else {
            None
        }
    }

    /// The time point that is `num` microseconds from 1970.
    pub fn from_int(num: u64) -> (r: TimePoint)
        ensures
            r.inner == num,
    {
        TimePoint { inner: num }
    }

    /// The time point that `s` is the text of, if it is one.
    pub fn from_str_py(s: &str) -> (r: Option<TimePoint>)
        ensures
            r == time_point_text(s@),
    {
        match str_to_time_point(s) {
            Some(micros) => Some(TimePoint { inner: micros }),
            None => None,
        }
    }

    /// The time point that `value` stands for: by its bytes, its number or
    /// its text.
    pub fn try_from(value: &TimePointLike) -> (r: Option<TimePoint>)
        ensures
            r == match value {
                TimePointLike::Raw(raw) => time_point_of_bytes(raw@),
                TimePointLike::Int(n) => Some(TimePoint { inner: *n }),
                TimePointLike::Str(s) => time_point_text(s@),
                TimePointLike::Cls(time) => Some(*time),
            },
    {
        match value {
            TimePointLike::Raw(raw) => TimePoint::from_bytes(raw.as_slice()),
            TimePointLike::Int(n) => Some(TimePoint::from_int(*n)),
            TimePointLike::Str(s) => TimePoint::from_str_py(s.as_str()),
            TimePointLike::Cls(time) => Some(*time),
        }
    }

    /// The eight bytes of the time point, least significant first.
    pub fn encode(&self) -> (r: Vec<u8>)
        ensures
            r@ == le_bytes(self.inner as nat, 8),
    {
        encode_u64(self.inner)
    }

    /// The text of the time point, to the millisecond, where the calendar
    /// reaches it.
    pub fn to_string(&self) -> (r: Option<String>)
        ensures
            match r {
                Some(text) => text_of_time_point(self.inner) == Some(text@),
                None => text_of_time_point(self.inner).is_none(),
            },
    {
        time_point_to_str(self.inner)
    }
}

} // verus!
