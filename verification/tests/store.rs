use kvcache::clock::{deadline, is_expired, seconds_left, NANOS_PER_SEC};
use kvcache::entry::CacheEntry;
use kvcache::reply::Reply;
use kvcache::request::{
    check_authenticated, check_params, check_password, handle_del, handle_get, handle_set,
    handle_ttl, key_from_request, keys_from_request,
};
use kvcache::store::{get_by_key, CacheStore, TtlResult};

const SECOND: u64 = 1_000_000_000;

fn parts(words: &[&str]) -> Vec<String> {
    words.iter().map(|w| w.to_string()).collect()
}

#[test]
fn deadline_is_now_plus_whole_seconds() {
    assert_eq!(NANOS_PER_SEC, 1_000_000_000);
    assert_eq!(deadline(0, 0), 0);
    assert_eq!(deadline(5, 1), 1_000_000_005);
    assert_eq!(deadline(1_500_000_000, 10), 11_500_000_000);
    assert_eq!(
        deadline(u64::MAX, u64::MAX),
        u64::MAX as u128 + u64::MAX as u128 * 1_000_000_000
    );
}

#[test]
fn expiry_starts_at_the_deadline() {
    assert!(!is_expired(None, 0));
    assert!(!is_expired(None, u64::MAX));
    assert!(!is_expired(Some(100), 99));
    assert!(is_expired(Some(100), 100));
    assert!(is_expired(Some(100), 101));
    assert!(is_expired(Some(0), 0));
    assert!(!is_expired(Some(u64::MAX as u128 + 1), u64::MAX));
}

#[test]
fn seconds_left_rounds_down() {
    assert_eq!(seconds_left(0, 10 * SECOND as u128), 10);
    assert_eq!(seconds_left(1, 10 * SECOND as u128), 9);
    assert_eq!(seconds_left(SECOND, 10 * SECOND as u128), 9);
    assert_eq!(seconds_left(9 * SECOND + 1, 10 * SECOND as u128), 0);
    assert_eq!(seconds_left(10 * SECOND, 10 * SECOND as u128), 0);
    assert_eq!(seconds_left(11 * SECOND, 10 * SECOND as u128), 0);
}

#[test]
fn entry_without_ttl_never_expires() {
    let entry = CacheEntry::new(0, "value", 123);
    assert_eq!(entry.value(), "value");
    assert_eq!(entry.expires_at(), None);
    assert!(!entry.is_expired(0));
    assert!(!entry.is_expired(u64::MAX));
}

#[test]
fn entry_with_ttl_expires_at_its_deadline() {
    let entry = CacheEntry::new(3, "v", 2 * SECOND + 7);
    assert_eq!(entry.value(), "v");
    assert_eq!(entry.expires_at(), Some(5_000_000_007));
    assert!(!entry.is_expired(5 * SECOND + 6));
    assert!(entry.is_expired(5 * SECOND + 7));
}

#[test]
fn entry_from_request_reads_ttl_only_from_four_words() {
    let now = 4 * SECOND;
    let plain = CacheEntry::new_from_request(&parts(&["SET", "k", "v"]), now);
    assert_eq!((plain.value(), plain.expires_at()), ("v", None));
    let timed = CacheEntry::new_from_request(&parts(&["SET", "k", "6", "v"]), now);
    assert_eq!((timed.value(), timed.expires_at()), ("v", Some(10_000_000_000)));
    let zero = CacheEntry::new_from_request(&parts(&["SET", "k", "0", "v"]), now);
    assert_eq!((zero.value(), zero.expires_at()), ("v", None));
    let malformed = CacheEntry::new_from_request(&parts(&["SET", "k", "soon", "v"]), now);
    assert_eq!((malformed.value(), malformed.expires_at()), ("v", None));
    let five = CacheEntry::new_from_request(&parts(&["SET", "k", "6", "v", "w"]), now);
    assert_eq!((five.value(), five.expires_at()), ("6", None));
    let number = CacheEntry::new_from_request(&parts(&["SET", "k", "6"]), now);
    assert_eq!((number.value(), number.expires_at()), ("6", None));
}

#[test]
fn key_and_keys_from_request() {
    let request = parts(&["DEL", "a", "b", "a"]);
    assert_eq!(key_from_request(&request), "a");
    assert_eq!(keys_from_request(&request), parts(&["a", "b", "a"]));
    assert_eq!(keys_from_request(&parts(&["DEL"])), Vec::<String>::new());
    assert_eq!(keys_from_request(&Vec::new()), Vec::<String>::new());
    assert_eq!(key_from_request(&parts(&["GET", "only"])), "only");
}

#[test]
fn new_store_is_empty() {
    let store = CacheStore::new();
    assert_eq!(store.len(), 0);
    assert!(!store.contains_key("k"));
    assert_eq!(store.get("k", 0), None);
    assert_eq!(store.ttl("k", 0), TtlResult::Absent);
    assert!(get_by_key(&store, "k", 0).is_none());
}

#[test]
fn set_get_and_ttl_on_the_store() {
    let mut store = CacheStore::new();
    store.set("plain", "p", 0, 10);
    store.set("timed", "t", 2, 10);
    assert_eq!(store.len(), 2);
    assert_eq!(store.get("plain", u64::MAX), Some("p"));
    assert_eq!(store.ttl("plain", u64::MAX), TtlResult::NoExpiry);
    assert_eq!(store.get("timed", 10), Some("t"));
    assert_eq!(store.ttl("timed", 10), TtlResult::SecondsRemaining(2));
    assert_eq!(store.ttl("timed", 11), TtlResult::SecondsRemaining(1));
    assert_eq!(store.get("timed", 2 * SECOND + 9), Some("t"));
    assert_eq!(store.ttl("timed", 2 * SECOND + 9), TtlResult::SecondsRemaining(0));
    assert_eq!(store.get("timed", 2 * SECOND + 10), None);
    assert_eq!(store.ttl("timed", 2 * SECOND + 10), TtlResult::Absent);
    assert!(store.contains_key("timed"));
    assert_eq!(store.len(), 2);
}

#[test]
fn get_by_key_hides_expired_entries() {
    let mut store = CacheStore::new();
    store.insert("k".to_string(), CacheEntry::new(1, "v", 0));
    let found = get_by_key(&store, "k", SECOND - 1).expect("an entry");
    assert_eq!(found.value(), "v");
    assert_eq!(found.expires_at(), Some(SECOND as u128));
    assert!(get_by_key(&store, "k", SECOND).is_none());
    assert!(get_by_key(&store, "other", 0).is_none());
}

#[test]
fn insert_replaces_the_whole_entry() {
    let mut store = CacheStore::new();
    store.set("k", "first", 1, 0);
    store.set("k", "second", 0, 0);
    assert_eq!(store.len(), 1);
    assert_eq!(store.get("k", 100 * SECOND), Some("second"));
    store.set("k", "third", 4, SECOND);
    assert_eq!(store.ttl("k", SECOND), TtlResult::SecondsRemaining(4));
    assert_eq!(store.get("k", 5 * SECOND), None);
}

#[test]
fn delete_counts_what_it_removes() {
    let mut store = CacheStore::new();
    for key in ["a", "b", "c", "d"] {
        store.set(key, "v", 0, 0);
    }
    store.set("old", "v", 1, 0);
    assert_eq!(store.delete(&parts(&[])), 0);
    assert_eq!(store.delete(&parts(&["missing"])), 0);
    assert_eq!(store.delete(&parts(&["a", "missing", "b", "a", "b"])), 2);
    assert_eq!(store.delete(&parts(&["a", "missing", "b", "a", "b"])), 0);
    assert_eq!(store.len(), 3);
    assert_eq!(store.get("old", 10 * SECOND), None);
    assert_eq!(store.delete(&parts(&["old", "c"])), 2);
    assert_eq!(store.delete(&parts(&["old", "c"])), 0);
    assert_eq!(store.len(), 1);
    assert_eq!(store.get("d", 0), Some("v"));
}

#[test]
fn sweep_removes_expired_entries_and_no_others() {
    let mut store = CacheStore::new();
    store.set("forever", "f", 0, 0);
    store.set("one", "1", 1, 0);
    store.set("two", "2", 2, 0);
    store.set("three", "3", 3, 0);
    store.purge_expired(SECOND - 1);
    assert_eq!(store.len(), 4);
    store.purge_expired(SECOND);
    assert_eq!(store.len(), 3);
    assert!(!store.contains_key("one"));
    store.purge_expired(2 * SECOND + 5);
    assert_eq!(store.len(), 2);
    assert_eq!(store.get("three", 2 * SECOND + 5), Some("3"));
    assert_eq!(store.ttl("three", 2 * SECOND + 5), TtlResult::SecondsRemaining(0));
    store.purge_expired(u64::MAX);
    assert_eq!(store.len(), 1);
    assert_eq!(store.get("forever", u64::MAX), Some("f"));
    store.purge_expired(u64::MAX);
    assert_eq!(store.len(), 1);
}

#[test]
fn sweep_changes_nothing_for_a_reader() {
    let mut swept = CacheStore::new();
    let mut kept = CacheStore::new();
    for store in [&mut swept, &mut kept] {
        store.set("a", "1", 0, 0);
        store.set("b", "2", 1, 0);
        store.set("c", "3", 5, 0);
    }
    swept.purge_expired(2 * SECOND);
    for now in [2 * SECOND, 3 * SECOND, 5 * SECOND, 6 * SECOND] {
        for key in ["a", "b", "c", "d"] {
            assert_eq!(swept.get(key, now), kept.get(key, now));
            assert_eq!(swept.ttl(key, now), kept.ttl(key, now));
        }
    }
    assert_eq!((swept.len(), kept.len()), (2, 3));
}

#[test]
fn sweep_follows_keys_through_rewrites() {
    let mut store = CacheStore::new();
    for round in 0..50u64 {
        store.set("k", "timed", 1, round);
        store.delete(&parts(&["k"]));
        store.set("k", "timed", 1, round);
        store.set("k", "plain", 0, round);
    }
    store.set("k", "timed", 1, 100);
    store.set("other", "timed", 1, 100);
    store.set("late", "timed", 9, 100);
    store.purge_expired(100);
    assert_eq!(store.len(), 3);
    store.set("k", "again", 2, 200);
    store.purge_expired(SECOND + 100);
    assert_eq!(store.len(), 2);
    assert_eq!(store.get("k", SECOND + 100), Some("again"));
    assert_eq!(store.get("other", SECOND + 100), None);
    store.set("k", "plain", 0, 300);
    store.purge_expired(u64::MAX);
    assert_eq!(store.len(), 1);
    assert_eq!(store.get("k", u64::MAX), Some("plain"));
}

#[test]
fn handlers_answer_for_the_store() {
    let mut store = CacheStore::new();
    assert_eq!(handle_set(&parts(&["SET", "k", "3", "v"]), &mut store, SECOND), Reply::Okay);
    assert_eq!(handle_set(&parts(&["SET", "p", "w"]), &mut store, SECOND), Reply::Okay);
    assert_eq!(
        handle_get(&parts(&["GET", "k"]), &store, SECOND),
        Reply::Value("v".to_string())
    );
    assert_eq!(handle_get(&parts(&["GET", "k"]), &store, 4 * SECOND), Reply::Missing);
    assert_eq!(handle_get(&parts(&["GET", "none"]), &store, SECOND), Reply::Missing);
    assert_eq!(
        handle_ttl(&parts(&["TTL", "k"]), &store, SECOND + 1),
        Reply::Ttl(TtlResult::SecondsRemaining(2))
    );
    assert_eq!(
        handle_ttl(&parts(&["TTL", "k"]), &store, 4 * SECOND),
        Reply::Ttl(TtlResult::Absent)
    );
    assert_eq!(handle_ttl(&parts(&["TTL", "p"]), &store, 0), Reply::Ttl(TtlResult::NoExpiry));
    assert_eq!(handle_ttl(&parts(&["TTL", "none"]), &store, 0), Reply::Ttl(TtlResult::Absent));
    assert_eq!(handle_del(&parts(&["DEL", "k", "none", "p", "k"]), &mut store), Reply::Count(2));
    assert_eq!(handle_del(&parts(&["DEL", "k", "none", "p", "k"]), &mut store), Reply::Count(0));
    assert_eq!(handle_del(&parts(&["DEL"]), &mut store), Reply::Count(0));
    assert_eq!(store.len(), 0);
}

#[test]
fn checks_refuse_with_the_right_answer() {
    assert_eq!(check_authenticated(true), None);
    assert_eq!(check_authenticated(false), Some(Reply::NoAuth));
    assert_eq!(check_password(&parts(&["AUTH", "password"]), "password"), Reply::Okay);
    assert_eq!(check_password(&parts(&["AUTH", "passwor"]), "password"), Reply::InvalidPassword);
    assert_eq!(check_password(&parts(&["AUTH", "password1"]), "password"), Reply::InvalidPassword);
    assert_eq!(check_password(&parts(&["AUTH", "Password"]), "password"), Reply::InvalidPassword);
    assert_eq!(check_password(&parts(&["AUTH", "pässword", "x"]), "pässword"), Reply::Okay);
    assert_eq!(check_params(&parts(&["GET", "k"]), "GET", 2), None);
    assert_eq!(
        check_params(&parts(&["GET"]), "GET", 2),
        Some(Reply::WrongArity("GET".to_string()))
    );
    assert_eq!(
        check_params(&parts(&["SET", "k"]), "SET", 3),
        Some(Reply::WrongArity("SET".to_string()))
    );
    assert_eq!(check_params(&parts(&["SET", "k", "v"]), "SET", 3), None);
    assert_eq!(check_params(&Vec::new(), "PING", 0), None);
}
