use history_policy::history::{
    advance_entries, advance_history, entries_have_room, has_room, try_advance_history,
};
use history_policy::model::{duplicate_entries, HistoryEntry, HistoryMap, Request, Timestamp};

fn stamp(seconds: f64) -> Timestamp {
    Timestamp { bits: seconds.to_bits() }
}

fn seconds(stamp: Timestamp) -> f64 {
    f64::from_bits(stamp.bits)
}

fn post_events(at: f64) -> Request {
    Request {
        method: "POST".to_string(),
        uri: "http://127.0.0.1:5000/api/events".to_string(),
        path: "/api/events".to_string(),
        body: "{}".to_string(),
        headers: Vec::new(),
        time: stamp(at),
    }
}

fn entry(api: &str, method: &str, counter: u64, at: f64) -> HistoryEntry {
    HistoryEntry {
        api: api.to_string(),
        method: method.to_string(),
        counter,
        timestamp: stamp(at),
    }
}

fn shape(entries: &Vec<HistoryEntry>) -> Vec<(String, String, u64, f64)> {
    entries
        .iter()
        .map(|e| (e.api.clone(), e.method.clone(), e.counter, seconds(e.timestamp)))
        .collect()
}

fn row(api: &str, method: &str, counter: u64, at: f64) -> (String, String, u64, f64) {
    (api.to_string(), method.to_string(), counter, at)
}

#[test]
fn empty_bucket_gets_one_entry_then_counts_it() {
    let mut start = HistoryMap::new();
    start.insert("o1".to_string(), Vec::new());
    let key = "o1".to_string();
    let once = advance_history(&post_events(5.0), &start);
    assert_eq!(shape(once.entries_of(&key).unwrap()), vec![row("/api/events", "POST", 0, 5.0)]);
    let twice = advance_history(&post_events(5.0), &once);
    assert_eq!(twice.entries_of(&key).unwrap().len(), 1);
    assert_eq!(shape(twice.entries_of(&key).unwrap()), vec![row("/api/events", "POST", 1, 5.0)]);
    assert_eq!(shape(start.entries_of(&key).unwrap()), Vec::new());
}

#[test]
fn first_matching_entry_is_updated_in_place() {
    let entries = vec![
        entry("/api/events", "GET", 3, 1.0),
        entry("/api/events", "POST", 7, 2.0),
        entry("/api/files", "POST", 1, 3.0),
        entry("/api/events", "POST", 9, 4.0),
    ];
    let next = advance_entries(&entries, &post_events(8.5));
    assert_eq!(
        shape(&next),
        vec![
            row("/api/events", "GET", 3, 1.0),
            row("/api/events", "POST", 8, 8.5),
            row("/api/files", "POST", 1, 3.0),
            row("/api/events", "POST", 9, 4.0),
        ]
    );
}

#[test]
fn every_bucket_is_advanced_and_keeps_its_place() {
    let mut start = HistoryMap::new();
    start.insert("b".to_string(), vec![entry("/api/events", "POST", 0, 1.0)]);
    start.insert("a".to_string(), vec![entry("/api/files", "GET", 2, 1.5)]);
    start.insert("c".to_string(), Vec::new());
    let next = advance_history(&post_events(9.0), &start);
    assert_eq!(next.len(), 3);
    assert_eq!(next.bucket(0).key, "b");
    assert_eq!(next.bucket(1).key, "a");
    assert_eq!(next.bucket(2).key, "c");
    assert_eq!(shape(&next.bucket(0).entries), vec![row("/api/events", "POST", 1, 9.0)]);
    assert_eq!(
        shape(&next.bucket(1).entries),
        vec![row("/api/files", "GET", 2, 1.5), row("/api/events", "POST", 0, 9.0)]
    );
    assert_eq!(shape(&next.bucket(2).entries), vec![row("/api/events", "POST", 0, 9.0)]);
}

#[test]
fn history_without_buckets_stays_empty() {
    let next = advance_history(&post_events(1.0), &HistoryMap::new());
    assert_eq!(next.len(), 0);
}

#[test]
fn advancing_is_deterministic() {
    let mut start = HistoryMap::new();
    start.insert("o1".to_string(), vec![entry("/api/events", "POST", 4, 1.0)]);
    start.insert("o2".to_string(), Vec::new());
    let request = post_events(3.25);
    let first = advance_history(&request, &start);
    let second = advance_history(&request, &start);
    assert_eq!(first.len(), second.len());
    for pos in 0..first.len() {
        assert_eq!(first.bucket(pos).key, second.bucket(pos).key);
        assert_eq!(shape(&first.bucket(pos).entries), shape(&second.bucket(pos).entries));
    }
    assert_eq!(shape(first.entries_of(&"o1".to_string()).unwrap()), vec![row(
        "/api/events",
        "POST",
        5,
        3.25
    )]);
}

#[test]
fn method_and_route_must_both_match() {
    let entries = vec![entry("/api/events", "post", 0, 1.0), entry("/api/events/", "POST", 0, 1.0)];
    let next = advance_entries(&entries, &post_events(2.0));
    assert_eq!(next.len(), 3);
    assert_eq!(shape(&next)[2], row("/api/events", "POST", 0, 2.0));
    assert_eq!(shape(&next)[0], row("/api/events", "post", 0, 1.0));
}

#[test]
fn insert_replaces_the_bucket_under_a_known_key() {
    let mut map = HistoryMap::new();
    map.insert("o1".to_string(), vec![entry("/a", "GET", 1, 1.0)]);
    map.insert("o2".to_string(), Vec::new());
    map.insert("o1".to_string(), vec![entry("/b", "PUT", 2, 2.0)]);
    assert_eq!(map.len(), 2);
    assert_eq!(map.find(&"o1".to_string()), 0);
    assert_eq!(map.find(&"o2".to_string()), 1);
    assert_eq!(map.find(&"o3".to_string()), 2);
    assert_eq!(shape(map.entries_of(&"o1".to_string()).unwrap()), vec![row("/b", "PUT", 2, 2.0)]);
    assert!(map.entries_of(&"o3".to_string()).is_none());
    let copy = map.bucket(0).entries[0].duplicate();
    assert_eq!(copy.api, "/b");
    assert_eq!(copy.counter, 2);
}

#[test]
fn a_full_counter_leaves_no_room() {
    let request = post_events(1.0);
    let full = vec![entry("/api/events", "POST", u64::MAX, 1.0)];
    assert!(!entries_have_room(&full, &request));
    let full_later = vec![
        entry("/api/events", "POST", 3, 1.0),
        entry("/api/events", "POST", u64::MAX, 1.0),
    ];
    assert!(entries_have_room(&full_later, &request));
    let full_elsewhere = vec![entry("/api/files", "POST", u64::MAX, 1.0)];
    assert!(entries_have_room(&full_elsewhere, &request));
    assert!(entries_have_room(&Vec::new(), &request));
    let mut map = HistoryMap::new();
    map.insert("o1".to_string(), full_later);
    assert!(has_room(&request, &map));
    let next = advance_history(&request, &map);
    assert_eq!(next.bucket(0).entries[0].counter, 4);
    assert_eq!(next.bucket(0).entries[1].counter, u64::MAX);
    assert_eq!(try_advance_history(&request, &map).unwrap().bucket(0).entries[0].counter, 4);
    map.insert("o2".to_string(), full);
    assert!(!has_room(&request, &map));
    assert!(try_advance_history(&request, &map).is_none());
}

#[test]
fn restriction_keeps_one_bucket() {
    let mut map = HistoryMap::new();
    map.insert("o1".to_string(), vec![entry("/a", "GET", 1, 1.0)]);
    map.insert("o2".to_string(), vec![entry("/b", "PUT", 2, 2.0), entry("/c", "GET", 0, 3.0)]);
    let one = map.restricted_to(&"o2".to_string());
    assert_eq!(one.len(), 1);
    assert_eq!(one.bucket(0).key, "o2");
    assert_eq!(shape(&one.bucket(0).entries), vec![row("/b", "PUT", 2, 2.0), row("/c", "GET", 0, 3.0)]);
    assert_eq!(map.restricted_to(&"o3".to_string()).len(), 0);
    assert_eq!(shape(&duplicate_entries(&map.bucket(1).entries)), shape(&map.bucket(1).entries));
}

#[test]
fn append_adds_a_bucket_at_the_end() {
    let mut map = HistoryMap::new();
    map.append("z".to_string(), vec![entry("/a", "GET", 1, 1.0)]);
    map.append("a".to_string(), Vec::new());
    assert_eq!(map.len(), 2);
    assert_eq!(map.bucket(0).key, "z");
    assert_eq!(map.bucket(1).key, "a");
    assert_eq!(shape(map.entries_of(&"z".to_string()).unwrap()), vec![row("/a", "GET", 1, 1.0)]);
}
