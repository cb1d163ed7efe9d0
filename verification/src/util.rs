//! Tolerant readers for node properties: a missing or mistyped property
//! yields the caller's alternative instead of an error.

use vstd::prelude::*;
use crate::graph::{lookup, Properties, PropertyValue};
use crate::timestamp::{parsed_or, rfc3339_instant, timestamp_of, Timestamp};

verus! {

/// The text stored under `key`, if a text is stored there.
pub open spec fn text_at(properties: &Properties, key: Seq<char>) -> Option<Seq<char>> {
    match lookup(properties.entries(), key) {
        Some(PropertyValue::Text(s)) => Some(s@),
        _ => None,
    }
}

/// The boolean stored under `key`, if a boolean is stored there.
pub open spec fn bool_at(properties: &Properties, key: Seq<char>) -> Option<bool> {
    match lookup(properties.entries(), key) {
        Some(PropertyValue::Boolean(b)) => Some(b),
        _ => None,
    }
}

/// The integer stored under `key`, if an integer is stored there.
pub open spec fn integer_at(properties: &Properties, key: Seq<char>) -> Option<i64> {
    match lookup(properties.entries(), key) {
        Some(PropertyValue::Integer(n)) => Some(n),
        _ => None,
    }
}

/// The timestamp read from the text under `key`, or `alternative` where
/// there is no text or it is no RFC 3339 date and time.
pub open spec fn utc_at(properties: &Properties, key: Seq<char>, alternative: Timestamp) -> Timestamp {
    match text_at(properties, key) {
        Some(s) => parsed_or(timestamp_of(rfc3339_instant(s)), alternative),
        None => alternative,
    }
}

/// The text under `key`, or `alternative` where there is none.
pub open spec fn text_or(properties: &Properties, key: Seq<char>, alternative: Seq<char>) -> Seq<
    char,
> {
    match text_at(properties, key) {
        Some(s) => s,
        None => alternative,
    }
}

/// The boolean under `key`, or `alternative` where there is none.
pub open spec fn bool_or(properties: &Properties, key: Seq<char>, alternative: bool) -> bool {
    match bool_at(properties, key) {
        Some(b) => b,
        None => alternative,
    }
}

/// The low 16 bits of the integer under `key`, or `alternative` where there
/// is none.
pub open spec fn u16_or(properties: &Properties, key: Seq<char>, alternative: u16) -> u16 {
    match integer_at(properties, key) {
        Some(n) => n as u16,
        None => alternative,
    }
}

/// The low 32 bits of the integer under `key`, or `alternative` where there
/// is none.
pub open spec fn u32_or(properties: &Properties, key: Seq<char>, alternative: u32) -> u32 {
    match integer_at(properties, key) {
        Some(n) => n as u32,
        None => alternative,
    }
}

/// The text under `key`, absent where the property is missing or no text.
pub fn try_get_string(properties: &Properties, key: &str) -> (r: Option<String>)
    ensures
        match r {
            Some(s) => text_at(properties, key@) == Some(s@),
            None => text_at(properties, key@) is None,
        },
{
    match properties.get(key) {
        Some(PropertyValue::Text(val)) => Some(val.clone()),
        _ => None,
    }
}

/// The text under `key`, or `alternative`.
pub fn get_string(properties: &Properties, key: &str, alternative: &str) -> (r: String)
    ensures
        r@ == text_or(properties, key@, alternative@),
{
    match properties.get(key) {
        Some(PropertyValue::Text(val)) => val.clone(),
        _ => String::from_str(alternative),
    }
}

/// The boolean under `key`, or `alternative`.
pub fn get_bool(properties: &Properties, key: &str, alternative: bool) -> (r: bool)
    ensures
        r == bool_or(properties, key@, alternative),
{
    match properties.get(key) {
        Some(PropertyValue::Boolean(val)) => *val,
        _ => alternative,
    }
}

/// The integer under `key` cut down to its low 16 bits, or `alternative`.
pub fn get_u16(properties: &Properties, key: &str, alternative: u16) -> (r: u16)
    ensures
        r == u16_or(properties, key@, alternative),
{
    match properties.get(key) {
        Some(PropertyValue::Integer(val)) => {
            #[verifier::truncate]
            let low = *val as u16;
            low
        },
        _ => alternative,
    }
}

/// The integer under `key` cut down to its low 32 bits, or `alternative`.
pub fn get_u32(properties: &Properties, key: &str, alternative: u32) -> (r: u32)
    ensures
        r == u32_or(properties, key@, alternative),
{
    match properties.get(key) {
        Some(PropertyValue::Integer(val)) => {
            #[verifier::truncate]
            let low = *val as u32;
            low
        },
        _ => alternative,
    }
}

/// The timestamp written under `key`, or `alternative`.
pub fn get_utc(properties: &Properties, key: &str, alternative: Timestamp) -> (r: Timestamp)
    ensures
        r == utc_at(properties, key@, alternative),
{
    match properties.get(key) {
        Some(PropertyValue::Text(val)) => Timestamp::or_alternative(
            Timestamp::parse(val.as_str()),
            alternative,
        ),
        _ => alternative,
    }
}

} // verus!
