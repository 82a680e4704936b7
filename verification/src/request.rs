//! Carrying out one request against the store.
//!
//! A request is the sequence of its words, the command's name first. Each
//! function here reads the words it needs and says in its `requires` how
//! many there have to be.

use vstd::prelude::*;
use crate::entry::{CacheEntry, EntryView, entry_from_request};
use crate::reply::{Reply, ReplyView, view_of};
use crate::store::{CacheStore, get_by_key, present_among, ttl_of, visible};
use crate::text::str_eq;

verus! {

/// The words of a request after the command's name.
pub open spec fn arguments(parts: Seq<Seq<char>>) -> Seq<Seq<char>> {
    if parts.len() > 0 {
        parts.skip(1)
    } else {
        Seq::empty()
    }
}

/// The answer to a read of `key` at `now`.
pub open spec fn get_reply(m: Map<Seq<char>, EntryView>, key: Seq<char>, now: u64) -> ReplyView {
    match visible(m, key, now) {
        Some(entry) => ReplyView::Value(entry.value),
        None => ReplyView::Missing,
    }
}

/// The key that a request names: its second word.
pub fn key_from_request(parts: &Vec<String>) -> (key: String)
    requires
        parts.len() >= 2,
    ensures
        key@ == parts.deep_view()[1],
{
    parts[1].clone()
}

/// The keys that a request names: all its words but the first.
pub fn keys_from_request(parts: &Vec<String>) -> (keys: Vec<String>)
    ensures
        keys.deep_view() == arguments(parts.deep_view()),
{
    let ghost named = arguments(parts.deep_view());
    let mut keys: Vec<String> = Vec::new();
    let mut i: usize = 1;
    while i < parts.len()
        invariant
            named == arguments(parts.deep_view()),
            1 <= i,
            i <= parts.len() || i == 1,
            keys.deep_view() == named.take(i - 1),
        decreases parts.len() - i,
    {
        keys.push(parts[i].clone());
        proof {
            assert(named[i - 1] == parts.deep_view()[i as int]);
            assert(keys.deep_view() =~= named.take(i - 1).push(named[i - 1]));
            assert(named.take(i - 1).push(named[i - 1]) =~= named.take(i as int));
        }
        i = i + 1;
    }
    proof {
        assert(named.take(i - 1) =~= named);
    }
    keys
}

/// Reads the value under the key that the request names.
pub fn handle_get(parts: &Vec<String>, store: &CacheStore, now: u64) -> (reply: Reply)
    requires
        parts.len() >= 2,
    ensures
        reply@ == get_reply(store@, parts.deep_view()[1], now),
{
    match get_by_key(store, parts[1].as_str(), now) {
        Some(entry) => Reply::Value(entry.value().to_owned()),
        None => Reply::Missing,
    }
}

/// Reads the remaining time-to-live under the key that the request names.
pub fn handle_ttl(parts: &Vec<String>, store: &CacheStore, now: u64) -> (reply: Reply)
    requires
        parts.len() >= 2,
    ensures
        reply@ == ReplyView::Ttl(ttl_of(store@, parts.deep_view()[1], now)),
{
    Reply::Ttl(store.ttl(parts[1].as_str(), now))
}

/// Writes the entry that the request describes under the key that it
/// names.
pub fn handle_set(parts: &Vec<String>, store: &mut CacheStore, now: u64) -> (reply: Reply)
    requires
        parts.len() >= 3,
        old(store).wf(),
    ensures
        final(store).wf(),
        final(store)@ == old(store)@.insert(
            parts.deep_view()[1],
            entry_from_request(parts.deep_view(), now),
        ),
        reply@ == ReplyView::Okay,
{
    store.insert(key_from_request(parts), CacheEntry::new_from_request(parts, now));
    Reply::Okay
}

/// Removes the entries under the keys that the request names, and answers
/// with the number removed.
pub fn handle_del(parts: &Vec<String>, store: &mut CacheStore) -> (reply: Reply)
    requires
        old(store).wf(),
    ensures
        final(store).wf(),
        final(store)@ == old(store)@.remove_keys(arguments(parts.deep_view()).to_set()),
        reply@ == ReplyView::Count(
            present_among(old(store)@, arguments(parts.deep_view())).len(),
        ),
{
    let keys = keys_from_request(parts);
    let removed = store.delete(&keys);
    Reply::Count(removed)
}

/// Refuses a request from a session that has not authenticated.
pub fn check_authenticated(authenticated: bool) -> (refusal: Option<Reply>)
    ensures
        view_of(refusal) == if authenticated {
            None
        } else {
            Some(ReplyView::NoAuth)
        },
{
    if authenticated {
        None
    } else {
        Some(Reply::NoAuth)
    }
}

/// Compares the password that the request carries, its second word, with
/// the configured one.
pub fn check_password(parts: &Vec<String>, password: &str) -> (reply: Reply)
    requires
        parts.len() >= 2,
    ensures
        reply@ == if parts.deep_view()[1] == password@ {
            ReplyView::Okay
        } else {
            ReplyView::InvalidPassword
        },
{
    if str_eq(parts[1].as_str(), password) {
        Reply::Okay
    } else {
        Reply::InvalidPassword
    }
}

/// Refuses a request that holds fewer than `min_words` words, naming the
/// command in the refusal.
pub fn check_params(parts: &Vec<String>, command: &str, min_words: usize) -> (refusal: Option<
    Reply,
>)
    ensures
        view_of(refusal) == if parts.len() < min_words {
            Some(ReplyView::WrongArity(command@))
        } else {
            None
        },
{
    if parts.len() < min_words {
        Some(Reply::WrongArity(command.to_owned()))
    } else {
        None
    }
}

} // verus!
