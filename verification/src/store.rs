//! The cache store: a map from keys to entries, each entry with an optional
//! deadline.
//!
//! An entry whose deadline has been reached is absent to every reader from
//! that instant on, though it stays in the map until it is overwritten,
//! deleted or swept. Deleting counts what was in the map, expired or not.

use vstd::prelude::*;
use vstd::hash_map::StringHashMap;
use crate::clock::{expired_at, seconds_between, seconds_left};
use crate::entry::{CacheEntry, EntryView, entry_of};

verus! {

/// What a query for the remaining time-to-live of a key finds.
#[derive(Clone, Copy, Debug, PartialEq, Eq, Structural)]
pub enum TtlResult {
    /// No visible entry under the key.
    Absent,
    /// A visible entry that never expires.
    NoExpiry,
    /// A visible entry, and the whole seconds left before its deadline.
    SecondsRemaining(u128),
}

/// The entry that a reader finds under `key` at `now`: the one in the map,
/// unless its deadline has been reached.
pub open spec fn visible(m: Map<Seq<char>, EntryView>, key: Seq<char>, now: u64) -> Option<
    EntryView,
> {
    if m.contains_key(key) && !expired_at(m[key].expires_at, now) {
        Some(m[key])
    } else {
        None
    }
}

/// The remaining time-to-live that a reader finds under `key` at `now`.
pub open spec fn ttl_of(m: Map<Seq<char>, EntryView>, key: Seq<char>, now: u64) -> TtlResult {
    match visible(m, key, now) {
        None => TtlResult::Absent,
        Some(e) => match e.expires_at {
            None => TtlResult::NoExpiry,
            Some(d) => TtlResult::SecondsRemaining(seconds_between(now, d) as u128),
        },
    }
}

/// The map without the entries whose deadline has been reached at `now`.
pub open spec fn without_expired(m: Map<Seq<char>, EntryView>, now: u64) -> Map<
    Seq<char>,
    EntryView,
> {
    Map::new(
        |k: Seq<char>| m.contains_key(k) && !expired_at(m[k].expires_at, now),
        |k: Seq<char>| m[k],
    )
}

/// The keys among `keys` that the map holds, each once.
pub open spec fn present_among(m: Map<Seq<char>, EntryView>, keys: Seq<Seq<char>>) -> Set<
    Seq<char>,
> {
    Set::new(|k: Seq<char>| keys.contains(k) && m.contains_key(k))
}

/// A sequence with one more element holds that element and what it held
/// before, and nothing else.
proof fn lemma_push_contains(s: Seq<Seq<char>>, x: Seq<char>)
    ensures
        forall|k: Seq<char>| #[trigger] s.push(x).contains(k) <==> (s.contains(k) || k == x),
{
    assert forall|k: Seq<char>| #[trigger] s.push(x).contains(k) <==> (s.contains(k) || k
        == x) by {
        vstd::seq_lib::lemma_seq_contains_after_push(s, x, k);
    }
}

/// The first `i + 1` elements of a sequence are its first `i` elements and
/// the element at `i`.
proof fn lemma_take_next_contains(s: Seq<Seq<char>>, i: int)
    requires
        0 <= i < s.len(),
    ensures
        s.take(i + 1) == s.take(i).push(s[i]),
        forall|k: Seq<char>| #[trigger]
            s.take(i + 1).contains(k) <==> (s.take(i).contains(k) || k == s[i]),
{
    assert(s.take(i + 1) =~= s.take(i).push(s[i]));
    lemma_push_contains(s.take(i), s[i]);
}

/// A map from keys to entries.
///
/// Beside the map the store keeps a list of the keys that may hold an entry
/// with a deadline, so that a sweep visits those alone.
pub struct CacheStore {
    entries: StringHashMap<CacheEntry>,
    expiring: Vec<String>,
}

impl View for CacheStore {
    type V = Map<Seq<char>, EntryView>;

    closed spec fn view(&self) -> Map<Seq<char>, EntryView> {
        Map::new(
            |k: Seq<char>| self.entries@.contains_key(k),
            |k: Seq<char>| self.entries@[k]@,
        )
    }
}

impl CacheStore {
    /// The keys that the next sweep will visit.
    pub closed spec fn pending(&self) -> Seq<Seq<char>> {
        self.expiring.deep_view()
    }

    /// The store's invariant: every key whose entry has a deadline is among
    /// the keys that the next sweep will visit.
    pub closed spec fn wf(&self) -> bool {
        forall|k: Seq<char>| #[trigger]
            self.entries@.contains_key(k) && self.entries@[k]@.expires_at is Some
                ==> self.pending().contains(k)
    }

    /// An empty store.
    pub fn new() -> (store: CacheStore)
        ensures
            store.wf(),
            store@ == Map::<Seq<char>, EntryView>::empty(),
            store.pending().len() == 0,
    {
        CacheStore { entries: StringHashMap::new(), expiring: Vec::new() }
    }

    /// The number of entries in the map, expired ones included.
    pub fn len(&self) -> (n: usize)
        ensures
            n == self@.len(),
    {
        assert(self@.dom() =~= self.entries@.dom());
        self.entries.len()
    }

    /// Whether the map holds an entry under `key`, expired or not.
    pub fn contains_key(&self, key: &str) -> (found: bool)
        ensures
            found == self@.contains_key(key@),
    {
        self.entries.contains_key(key)
    }

    /// Puts `entry` under `key`, in place of whatever was there.
    pub fn insert(&mut self, key: String, entry: CacheEntry)
        requires
            old(self).wf(),
        ensures
            final(self).wf(),
            final(self)@ == old(self)@.insert(key@, entry@),
    {
        if entry.expires_at().is_some() {
            let listed = match self.entries.get(key.as_str()) {
                Some(present) => present.expires_at().is_some(),
                None => false,
            };
            if !listed {
                proof {
                    lemma_push_contains(self.pending(), key@);
                }
                let ghost before = self.pending();
                self.expiring.push(key.clone());
                assert(self.pending() =~= before.push(key@));
            }
        }
        self.entries.insert(key, entry);
        assert(self@ =~= old(self)@.insert(key@, entry@));
    }

    /// Writes `value` under `key` at `now`, replacing value and deadline of
    /// whatever was there. A time-to-live of zero seconds means that the
    /// entry never expires.
    pub fn set(&mut self, key: &str, value: &str, ttl_seconds: u64, now: u64)
        requires
            old(self).wf(),
        ensures
            final(self).wf(),
            final(self)@ == old(self)@.insert(key@, entry_of(ttl_seconds, value@, now)),
    {
        self.insert(key.to_owned(), CacheEntry::new(ttl_seconds, value, now));
    }

    /// The value under `key` as a reader sees it at `now`.
    pub fn get(&self, key: &str, now: u64) -> (value: Option<&str>)
        ensures
            match value {
                Some(v) => visible(self@, key@, now) matches Some(e) && v@ == e.value,
                None => visible(self@, key@, now) is None,
            },
    {
        match get_by_key(self, key, now) {
            Some(entry) => Some(entry.value()),
            None => None,
        }
    }

    /// The remaining time-to-live under `key` as a reader sees it at `now`.
    pub fn ttl(&self, key: &str, now: u64) -> (left: TtlResult)
        ensures
            left == ttl_of(self@, key@, now),
    {
        match get_by_key(self, key, now) {
            None => TtlResult::Absent,
            Some(entry) => match entry.expires_at() {
                None => TtlResult::NoExpiry,
                Some(d) => TtlResult::SecondsRemaining(seconds_left(now, d)),
            },
        }
    }

    /// Removes the entry under each of `keys`, expired or not, and counts
    /// the entries removed. A key that the map does not hold, or that came
    /// earlier in `keys`, counts for nothing.
    pub fn delete(&mut self, keys: &Vec<String>) -> (removed: usize)
        requires
            old(self).wf(),
        ensures
            final(self).wf(),
            final(self)@ == old(self)@.remove_keys(keys.deep_view().to_set()),
            removed == present_among(old(self)@, keys.deep_view()).len(),
    {
        let ghost all = keys.deep_view();
        let mut removed: usize = 0;
        let mut i: usize = 0;
        proof {
            assert(present_among(old(self)@, all.take(0)) =~= Set::<Seq<char>>::empty());
        }
        while i < keys.len()
            invariant
                i <= keys.len(),
                all == keys.deep_view(),
                self.wf(),
                removed <= i,
                self@ == old(self)@.remove_keys(all.take(i as int).to_set()),
                present_among(old(self)@, all.take(i as int)).finite(),
                removed == present_among(old(self)@, all.take(i as int)).len(),
            decreases keys.len() - i,
        {
            let key = keys[i].as_str();
            let ghost before = present_among(old(self)@, all.take(i as int));
            let ghost after = present_among(old(self)@, all.take(i + 1));
            let ghost prev = self@;
            proof {
                lemma_take_next_contains(all, i as int);
            }
            if self.entries.contains_key(key) {
                proof {
                    // The key is in the map still, so it came with no
                    // earlier key and is counted now.
                    assert(self@.contains_key(key@));
                    assert(after =~= before.insert(key@));
                }
                self.entries.remove(key);
                removed = removed + 1;
            } else {
                proof {
                    // The key was never in the map, or came with an
                    // earlier key and was counted then.
                    assert(!self@.contains_key(key@));
                    assert(after =~= before);
                }
            }
            proof {
                assert(self@ =~= prev.remove(key@));
                assert(prev.remove(key@) =~= old(self)@.remove_keys(all.take(i + 1).to_set()));
            }
            i = i + 1;
        }
        proof {
            assert(all.take(i as int) =~= all);
        }
        removed
    }

    /// Removes every entry whose deadline has been reached at `now`, and
    /// leaves the others as they are. Afterwards the keys that the next
    /// sweep will visit are the keys of the entries that have a deadline,
    /// each once.
    pub fn purge_expired(&mut self, now: u64)
        requires
            old(self).wf(),
        ensures
            final(self).wf(),
            final(self)@ == without_expired(old(self)@, now),
            final(self).pending().no_duplicates(),
            forall|k: Seq<char>|
                final(self).pending().contains(k) <==> (#[trigger] final(self)@.contains_key(k)
                    && final(self)@[k].expires_at is Some),
    {
        let ghost start = self.entries@;
        let ghost listed = self.pending();
        let mut kept: Vec<String> = Vec::new();
        let mut seen: StringHashMap<()> = StringHashMap::new();
        let n = self.expiring.len();
        let mut i: usize = 0;
        while i < n
            invariant
                i <= n,
                n == self.expiring.len(),
                listed == self.pending(),
                listed == self.expiring.deep_view(),
                // The map so far: what it was, less the expired entries
                // under the keys visited.
                forall|k: Seq<char>| #[trigger]
                    self.entries@.contains_key(k) <==> (start.contains_key(k) && !(listed.take(
                        i as int,
                    ).contains(k) && expired_at(start[k]@.expires_at, now))),
                forall|k: Seq<char>| #[trigger]
                    self.entries@.contains_key(k) ==> self.entries@[k] == start[k],
                // Every key with a deadline is on the list.
                forall|k: Seq<char>| #[trigger]
                    start.contains_key(k) && start[k]@.expires_at is Some ==> listed.contains(k),
                // The keys kept so far: those visited whose entry has a
                // deadline not yet reached, each once.
                kept.deep_view().no_duplicates(),
                forall|k: Seq<char>|
                    #![trigger kept.deep_view().contains(k)]
                    #![trigger seen@.contains_key(k)]
                    kept.deep_view().contains(k) <==> seen@.contains_key(k),
                forall|k: Seq<char>|
                    #![trigger seen@.contains_key(k)]
                    #![trigger listed.take(i as int).contains(k)]
                    seen@.contains_key(k) <==> (listed.take(i as int).contains(k)
                        && start.contains_key(k) && start[k]@.expires_at is Some && !expired_at(
                        start[k]@.expires_at,
                        now,
                    )),
            decreases n - i,
        {
            let key = self.expiring[i].as_str();
            proof {
                lemma_take_next_contains(listed, i as int);
            }
            let (timed, expired) = match self.entries.get(key) {
                Some(entry) => (entry.expires_at().is_some(), entry.is_expired(now)),
                None => (false, false),
            };
            if expired {
                self.entries.remove(key);
            } else if timed && !seen.contains_key(key) {
                let ghost kept_before = kept.deep_view();
                seen.insert(self.expiring[i].clone(), ());
                kept.push(self.expiring[i].clone());
                proof {
                    // The key is new among those kept, so they stay
                    // distinct.
                    lemma_push_contains(kept_before, key@);
                    assert(kept.deep_view() =~= kept_before.push(key@));
                    assert(!kept_before.contains(key@));
                    assert forall|a: int, b: int|
                        0 <= a < kept.deep_view().len() && 0 <= b < kept.deep_view().len() && a
                            != b implies kept.deep_view()[a] != kept.deep_view()[b] by {
                        if a < kept_before.len() {
                            assert(kept_before.contains(kept_before[a]));
                        }
                        if b < kept_before.len() {
                            assert(kept_before.contains(kept_before[b]));
                        }
                    }
                }
            }
            i = i + 1;
        }
        proof {
            assert(listed.take(n as int) =~= listed);
        }
        self.expiring = kept;
        proof {
            assert(self@ =~= without_expired(old(self)@, now));
        }
    }
}

/// The entry under `key` as a reader sees it at `now`: the one in the map,
/// unless its deadline has been reached.
pub fn get_by_key<'a>(store: &'a CacheStore, key: &str, now: u64) -> (found: Option<&'a CacheEntry>)
    ensures
        match found {
            Some(entry) => visible(store@, key@, now) == Some(entry@),
            None => visible(store@, key@, now) is None,
        },
{
    match store.entries.get(key) {
        Some(entry) => {
            if entry.is_expired(now) {
                None
            } else {
                Some(entry)
            }
        },
        None => None,
    }
}

} // verus!
