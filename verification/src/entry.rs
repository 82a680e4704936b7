//! One cached value and the instant at which it stops being visible.

use vstd::prelude::*;
use crate::clock::{deadline, deadline_of, expired_at, is_expired};
use crate::decimal::{parse_u64, parsed_u64};

verus! {

/// The model of an entry: its payload as a sequence of characters, and its
/// deadline if it has one.
pub struct EntryView {
    pub value: Seq<char>,
    pub expires_at: Option<u128>,
}

/// The model of an entry written at `now` with the given time-to-live. A
/// time-to-live of zero seconds means that the entry never expires.
pub open spec fn entry_of(ttl_seconds: u64, value: Seq<char>, now: u64) -> EntryView {
    EntryView {
        value,
        expires_at: if ttl_seconds == 0 {
            None
        } else {
            Some(deadline_of(now, ttl_seconds) as u128)
        },
    }
}

/// The time-to-live that a word of a request asks for: the number it
/// denotes, or zero, which is no expiration, where it denotes none.
pub open spec fn ttl_or_zero(word: Seq<char>) -> u64 {
    match parsed_u64(word) {
        Some(ttl_seconds) => ttl_seconds,
        None => 0,
    }
}

/// The model of the entry that a write request stores at `now`. The words
/// of the request are the command, the key, and then either a time-to-live
/// and the value, where exactly four words came, or the value.
pub open spec fn entry_from_request(parts: Seq<Seq<char>>, now: u64) -> EntryView {
    if parts.len() == 4 {
        entry_of(ttl_or_zero(parts[2]), parts[3], now)
    } else {
        entry_of(0, parts[2], now)
    }
}

/// A cached value with an optional deadline.
#[derive(Debug)]
pub struct CacheEntry {
    expires_at: Option<u128>,
    value: String,
}

impl View for CacheEntry {
    type V = EntryView;

    closed spec fn view(&self) -> EntryView {
        EntryView { value: self.value@, expires_at: self.expires_at }
    }
}

impl CacheEntry {
    /// Makes the entry that a write at `now` stores.
    pub fn new(ttl_seconds: u64, value: &str, now: u64) -> (entry: CacheEntry)
        ensures
            entry@ == entry_of(ttl_seconds, value@, now),
    {
        let expires_at = if ttl_seconds == 0 {
            None
        } else {
            Some(deadline(now, ttl_seconds))
        };
        CacheEntry { expires_at, value: value.to_owned() }
    }

    /// Makes the entry that a write request stores at `now`.
    pub fn new_from_request(parts: &Vec<String>, now: u64) -> (entry: CacheEntry)
        requires
            parts.len() >= 3,
        ensures
            entry@ == entry_from_request(parts.deep_view(), now),
    {
        if parts.len() == 4 {
            let ttl_seconds = match parse_u64(parts[2].as_str()) {
                Some(ttl_seconds) => ttl_seconds,
                None => 0,
            };
            CacheEntry::new(ttl_seconds, parts[3].as_str(), now)
        } else {
            CacheEntry::new(0, parts[2].as_str(), now)
        }
    }

    /// The payload.
    pub fn value(&self) -> (v: &str)
        ensures
            v@ == self@.value,
    {
        self.value.as_str()
    }

    /// The deadline, if the entry has one.
    pub fn expires_at(&self) -> (d: Option<u128>)
        ensures
            d == self@.expires_at,
    {
        self.expires_at
    }

    /// Whether the entry has stopped being visible at `now`.
    pub fn is_expired(&self, now: u64) -> (r: bool)
        ensures
            r == expired_at(self@.expires_at, now),
    {
        is_expired(self.expires_at, now)
    }
}

} // verus!
