//! What holds of the cache and its protocol, whatever the inputs.
//!
//! Each statement here is proved from the models that the contracts of the
//! executable functions speak of, so it holds of every run of them.

use vstd::prelude::*;
use crate::clock::{deadline_of, expired_at, seconds_between};
use crate::command::command_of;
use crate::decimal::parsed_u64;
use crate::entry::{EntryView, entry_of};
use crate::reply::ReplyView;
use crate::request::{arguments, get_reply};
use crate::session::{Served, serve_line};
use crate::store::{TtlResult, present_among, ttl_of, visible, without_expired};
use crate::text::uppercase;
use crate::words::words;

verus! {

/// A value written without a time-to-live is what every later read of the
/// key finds, however late it comes.
pub proof fn law_read_after_write(
    m: Map<Seq<char>, EntryView>,
    key: Seq<char>,
    value: Seq<char>,
    now: u64,
    later: u64,
)
    ensures
        visible(m.insert(key, entry_of(0, value, now)), key, later) == Some(
            entry_of(0, value, now),
        ),
        get_reply(m.insert(key, entry_of(0, value, now)), key, later) == ReplyView::Value(value),
{
}

/// On an authenticated session, a write request of three words followed by
/// a read request for the same key is answered first with the
/// acknowledgement and then with the value written. Neither request changes
/// anything else in the store.
pub proof fn law_set_then_get(
    store: Map<Seq<char>, EntryView>,
    password: Seq<char>,
    now: u64,
    later: u64,
    set_line: Seq<char>,
    get_line: Seq<char>,
)
    requires
        words(set_line).len() == 3,
        command_of(uppercase(words(set_line)[0])) is Put,
        words(get_line).len() >= 2,
        command_of(uppercase(words(get_line)[0])) is Get,
        words(get_line)[1] == words(set_line)[1],
    ensures
        ({
            let written = serve_line(true, store, password, now, set_line);
            let read = serve_line(written.authenticated, written.store, password, later, get_line);
            &&& written.reply == Some(ReplyView::Okay)
            &&& written.store == store.insert(
                words(set_line)[1],
                entry_of(0, words(set_line)[2], now),
            )
            &&& read.reply == Some(ReplyView::Value(words(set_line)[2]))
            &&& read.store == written.store
            &&& read.authenticated && !read.close
        }),
{
    assert(arguments(words(set_line)).len() == 2);
    assert(arguments(words(get_line)).len() >= 1);
}

/// A value written with a time-to-live is what a read of the key finds at
/// every instant before the deadline, and from the deadline on the key is
/// absent.
pub proof fn law_visible_until_deadline(
    m: Map<Seq<char>, EntryView>,
    key: Seq<char>,
    value: Seq<char>,
    ttl_seconds: u64,
    now: u64,
    later: u64,
)
    requires
        ttl_seconds > 0,
    ensures
        later < deadline_of(now, ttl_seconds) ==> get_reply(
            m.insert(key, entry_of(ttl_seconds, value, now)),
            key,
            later,
        ) == ReplyView::Value(value),
        later >= deadline_of(now, ttl_seconds) ==> get_reply(
            m.insert(key, entry_of(ttl_seconds, value, now)),
            key,
            later,
        ) == ReplyView::Missing,
{
}

/// A value written with a time-to-live of one second is found by a read
/// that comes less than a second after the write, and is absent to a read
/// that comes two seconds after the write or later.
pub proof fn law_one_second_entry(
    m: Map<Seq<char>, EntryView>,
    key: Seq<char>,
    value: Seq<char>,
    now: u64,
    later: u64,
)
    requires
        now <= later,
    ensures
        later - now < 1_000_000_000 ==> get_reply(
            m.insert(key, entry_of(1, value, now)),
            key,
            later,
        ) == ReplyView::Value(value),
        later - now >= 2_000_000_000 ==> get_reply(
            m.insert(key, entry_of(1, value, now)),
            key,
            later,
        ) == ReplyView::Missing,
{
}

/// On an authenticated session, a write request of four words whose third
/// word denotes a time-to-live above zero is acknowledged, and a read
/// request for the same key is then answered with the value written if it
/// comes before the deadline, and with the absence of a value if it comes
/// at the deadline or later.
pub proof fn law_set_with_ttl_then_get(
    store: Map<Seq<char>, EntryView>,
    password: Seq<char>,
    now: u64,
    later: u64,
    ttl_seconds: u64,
    set_line: Seq<char>,
    get_line: Seq<char>,
)
    requires
        words(set_line).len() == 4,
        command_of(uppercase(words(set_line)[0])) is Put,
        parsed_u64(words(set_line)[2]) == Some(ttl_seconds),
        ttl_seconds > 0,
        words(get_line).len() >= 2,
        command_of(uppercase(words(get_line)[0])) is Get,
        words(get_line)[1] == words(set_line)[1],
    ensures
        ({
            let written = serve_line(true, store, password, now, set_line);
            let read = serve_line(written.authenticated, written.store, password, later, get_line);
            &&& written.reply == Some(ReplyView::Okay)
            &&& written.store == store.insert(
                words(set_line)[1],
                entry_of(ttl_seconds, words(set_line)[3], now),
            )
            &&& later < deadline_of(now, ttl_seconds) ==> read.reply == Some(
                ReplyView::Value(words(set_line)[3]),
            )
            &&& later >= deadline_of(now, ttl_seconds) ==> read.reply == Some(ReplyView::Missing)
        }),
{
    assert(arguments(words(set_line)).len() == 3);
    assert(arguments(words(get_line)).len() >= 1);
}

/// The remaining time-to-live of a key that the store does not hold is that
/// of an absent key, and so is that of a key whose entry has expired.
pub proof fn law_ttl_of_absent_key(m: Map<Seq<char>, EntryView>, key: Seq<char>, now: u64)
    requires
        !m.contains_key(key) || expired_at(m[key].expires_at, now),
    ensures
        ttl_of(m, key, now) == TtlResult::Absent,
        ReplyView::Ttl(ttl_of(m, key, now)).wire() == "-1"@,
{
}

/// The remaining time-to-live of a key written without one is that of a key
/// that never expires, at every later instant.
pub proof fn law_ttl_without_expiry(
    m: Map<Seq<char>, EntryView>,
    key: Seq<char>,
    value: Seq<char>,
    now: u64,
    later: u64,
)
    ensures
        ttl_of(m.insert(key, entry_of(0, value, now)), key, later) == TtlResult::NoExpiry,
        ReplyView::Ttl(ttl_of(m.insert(key, entry_of(0, value, now)), key, later)).wire() == "-1"@,
{
}

/// Before its deadline, the remaining time-to-live of a key written with
/// one is the whole seconds left: never more than was asked for, at least
/// one less than that while less than a second has passed, and at least one
/// while a second or more is left.
pub proof fn law_ttl_counts_down(
    m: Map<Seq<char>, EntryView>,
    key: Seq<char>,
    value: Seq<char>,
    ttl_seconds: u64,
    now: u64,
    later: u64,
)
    requires
        ttl_seconds > 0,
        now <= later < deadline_of(now, ttl_seconds),
    ensures
        ({
            let left = seconds_between(later, deadline_of(now, ttl_seconds) as u128);
            &&& ttl_of(m.insert(key, entry_of(ttl_seconds, value, now)), key, later)
                == TtlResult::SecondsRemaining(left as u128)
            &&& 0 <= left <= ttl_seconds
            &&& later - now < 1_000_000_000 ==> left >= ttl_seconds - 1
            &&& later + 1_000_000_000 <= deadline_of(now, ttl_seconds) ==> left >= 1
        }),
{
}

/// The remaining time-to-live never grows as time passes, and it shrinks
/// once a whole second has passed.
pub proof fn law_ttl_decreases(deadline: u128, earlier: u64, later: u64)
    requires
        earlier <= later < deadline,
    ensures
        seconds_between(later, deadline) <= seconds_between(earlier, deadline),
        later - earlier >= 1_000_000_000 ==> seconds_between(later, deadline) < seconds_between(
            earlier,
            deadline,
        ),
{
}

/// The number that a deletion reports is a count in the plain sense: where
/// no key is named twice, it is the number of the named keys that the store
/// holds, and never more than the number of keys named.
pub proof fn law_delete_counts_named_keys(m: Map<Seq<char>, EntryView>, keys: Seq<Seq<char>>)
    requires
        keys.no_duplicates(),
    ensures
        present_among(m, keys).finite(),
        present_among(m, keys).len() == keys.filter(|k: Seq<char>| m.contains_key(k)).len(),
        present_among(m, keys).len() <= keys.len(),
    decreases keys.len(),
{
    let held = |k: Seq<char>| m.contains_key(k);
    keys.lemma_filter_len(held);
    if keys.len() == 0 {
        assert(present_among(m, keys) =~= Set::<Seq<char>>::empty());
    } else {
        let init = keys.drop_last();
        let last = keys.last();
        assert(keys =~= init.push(last));
        law_delete_counts_named_keys(m, init);
        init.lemma_filter_push(last, held);
        assert(!init.contains(last)) by {
            if init.contains(last) {
                let i = choose|i: int| 0 <= i < init.len() && init[i] == last;
                assert(keys[i] == keys[keys.len() - 1]);
            }
        }
        assert forall|k: Seq<char>| keys.contains(k) <==> (init.contains(k) || k == last) by {
            vstd::seq_lib::lemma_seq_contains_after_push(init, last, k);
        }
        if m.contains_key(last) {
            assert(present_among(m, keys) =~= present_among(m, init).insert(last));
        } else {
            assert(present_among(m, keys) =~= present_among(m, init));
        }
    }
}

/// Deleting the same keys a second time finds none of them.
pub proof fn law_delete_again_removes_nothing(m: Map<Seq<char>, EntryView>, keys: Seq<Seq<char>>)
    ensures
        present_among(m.remove_keys(keys.to_set()), keys) == Set::<Seq<char>>::empty(),
        present_among(m.remove_keys(keys.to_set()), keys).len() == 0,
{
    assert(present_among(m.remove_keys(keys.to_set()), keys) =~= Set::<Seq<char>>::empty());
}

/// An unauthenticated session is refused every request but those to
/// authenticate, to probe, to quit, and those for unknown commands, and a
/// refused request leaves store and session as they were.
pub proof fn law_unauthenticated_refused(
    store: Map<Seq<char>, EntryView>,
    password: Seq<char>,
    now: u64,
    line: Seq<char>,
)
    requires
        words(line).len() > 0,
        !command_of(uppercase(words(line)[0])).is_open(),
    ensures
        serve_line(false, store, password, now, line) == (Served {
            authenticated: false,
            store,
            reply: Some(ReplyView::NoAuth),
            close: false,
        }),
{
}

/// Whatever an unauthenticated session is sent, the store stays as it was.
pub proof fn law_unauthenticated_never_writes(
    store: Map<Seq<char>, EntryView>,
    password: Seq<char>,
    now: u64,
    line: Seq<char>,
)
    ensures
        serve_line(false, store, password, now, line).store == store,
{
}

/// A request to authenticate leaves the session authenticated if and only
/// if it carries the configured password, whatever the session was before,
/// and is answered accordingly. The store stays as it was.
pub proof fn law_auth_decides(
    authenticated: bool,
    store: Map<Seq<char>, EntryView>,
    password: Seq<char>,
    now: u64,
    line: Seq<char>,
)
    requires
        words(line).len() >= 2,
        command_of(uppercase(words(line)[0])) is Auth,
    ensures
        ({
            let after = serve_line(authenticated, store, password, now, line);
            &&& after.authenticated == (words(line)[1] == password)
            &&& after.reply == Some(
                if words(line)[1] == password {
                    ReplyView::Okay
                } else {
                    ReplyView::InvalidPassword
                },
            )
            &&& after.store == store
            &&& !after.close
        }),
{
    assert(arguments(words(line)).len() >= 1);
}

/// After a request to authenticate with a wrong password and then one with
/// the configured password, the session is authenticated, and nothing that
/// it is sent next is refused for want of authentication.
pub proof fn law_auth_after_failure(
    authenticated: bool,
    store: Map<Seq<char>, EntryView>,
    password: Seq<char>,
    now: u64,
    wrong: Seq<char>,
    right: Seq<char>,
    next: Seq<char>,
)
    requires
        words(wrong).len() >= 2,
        command_of(uppercase(words(wrong)[0])) is Auth,
        words(wrong)[1] != password,
        words(right).len() >= 2,
        command_of(uppercase(words(right)[0])) is Auth,
        words(right)[1] == password,
    ensures
        ({
            let first = serve_line(authenticated, store, password, now, wrong);
            let second = serve_line(first.authenticated, first.store, password, now, right);
            let third = serve_line(second.authenticated, second.store, password, now, next);
            &&& !first.authenticated
            &&& first.reply == Some(ReplyView::InvalidPassword)
            &&& second.authenticated
            &&& second.reply == Some(ReplyView::Okay)
            &&& third.reply != Some(ReplyView::NoAuth)
        }),
{
    law_auth_decides(authenticated, store, password, now, wrong);
    law_auth_decides(false, store, password, now, right);
}

/// An unauthenticated session becomes authenticated by nothing but a
/// request to authenticate that carries the configured password.
pub proof fn law_authentication_needs_password(
    store: Map<Seq<char>, EntryView>,
    password: Seq<char>,
    now: u64,
    line: Seq<char>,
)
    requires
        serve_line(false, store, password, now, line).authenticated,
    ensures
        words(line).len() >= 2,
        command_of(uppercase(words(line)[0])) is Auth,
        words(line)[1] == password,
{
}

/// The store changes under nothing but a request to write or to delete
/// that comes from an authenticated session.
pub proof fn law_only_writes_change_the_store(
    authenticated: bool,
    store: Map<Seq<char>, EntryView>,
    password: Seq<char>,
    now: u64,
    line: Seq<char>,
)
    requires
        serve_line(authenticated, store, password, now, line).store != store,
    ensures
        authenticated,
        words(line).len() > 0,
        command_of(uppercase(words(line)[0])).writes(),
{
}

/// A line is answered if and only if it holds a word, and the connection
/// is closed after a line if and only if the line holds no word or asks to
/// quit.
pub proof fn law_answer_and_close(
    authenticated: bool,
    store: Map<Seq<char>, EntryView>,
    password: Seq<char>,
    now: u64,
    line: Seq<char>,
)
    ensures
        serve_line(authenticated, store, password, now, line).reply is Some <==> words(line).len()
            > 0,
        serve_line(authenticated, store, password, now, line).close <==> (words(line).len() == 0
            || command_of(uppercase(words(line)[0])) is Quit),
{
}

/// The store after entries have been written under one key, one after
/// another.
pub open spec fn after_writes(
    m: Map<Seq<char>, EntryView>,
    key: Seq<char>,
    entries: Seq<EntryView>,
) -> Map<Seq<char>, EntryView>
    decreases entries.len(),
{
    if entries.len() == 0 {
        m
    } else {
        after_writes(m, key, entries.drop_last()).insert(key, entries.last())
    }
}

/// Writes to one key that are applied one after another, in whatever order,
/// leave under the key exactly the entry written last, which is one of
/// those written, and leave every other key as it was.
pub proof fn law_last_write_wins(
    m: Map<Seq<char>, EntryView>,
    key: Seq<char>,
    entries: Seq<EntryView>,
)
    requires
        entries.len() > 0,
    ensures
        after_writes(m, key, entries) == m.insert(key, entries.last()),
        entries.contains(after_writes(m, key, entries)[key]),
    decreases entries.len(),
{
    let before = after_writes(m, key, entries.drop_last());
    if entries.len() > 1 {
        law_last_write_wins(m, key, entries.drop_last());
    } else {
        assert(before == m);
    }
    assert(before.insert(key, entries.last()) =~= m.insert(key, entries.last()));
    assert(entries[entries.len() - 1] == entries.last());
}

/// A sweep changes nothing for a reader: at the instant of the sweep and at
/// every later one, each key shows the same entry and the same remaining
/// time-to-live as it would without the sweep.
pub proof fn law_sweep_is_invisible(
    m: Map<Seq<char>, EntryView>,
    key: Seq<char>,
    now: u64,
    later: u64,
)
    requires
        now <= later,
    ensures
        visible(without_expired(m, now), key, later) == visible(m, key, later),
        ttl_of(without_expired(m, now), key, later) == ttl_of(m, key, later),
{
}

} // verus!
