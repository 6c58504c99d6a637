use bytes::Bytes;
use kv_command::{Db, Frame, MultiGet, Parse, ParseError};
use std::cell::Cell;

fn names(keys: &[&str]) -> Vec<String> {
    keys.iter().map(|key| key.to_string()).collect()
}

fn bulk(text: &str) -> Frame {
    Frame::Bulk(Bytes::from(text.to_string()))
}

fn store(entries: &[(&str, &str)]) -> Db {
    let mut db = Db::new();
    for (key, value) in entries {
        db.set(key.to_string(), Bytes::from(value.to_string()));
    }
    db
}

/// Encodes a command for `keys`, takes the command's name off the front as a
/// dispatcher would, and decodes the rest.
fn round_trip(keys: &[&str]) -> Vec<String> {
    let frame = MultiGet::new(names(keys)).into_frame();
    let mut parse = Parse::new(frame).unwrap();
    assert_eq!(parse.next_string().unwrap().to_lowercase(), "multiget");
    let cmd = MultiGet::parse_frames(&mut parse).unwrap();
    assert_eq!(parse.next_string(), Err(ParseError::Exhausted));
    cmd.keys().clone()
}

#[test]
fn new_keeps_the_keys_in_order() {
    let cmd = MultiGet::new(names(&["b", "a", "b"]));
    assert_eq!(cmd.keys(), &names(&["b", "a", "b"]));
}

#[test]
fn new_accepts_no_keys() {
    let cmd = MultiGet::new(Vec::new());
    assert!(cmd.keys().is_empty());
}

#[test]
fn into_frame_is_name_count_and_keys() {
    let frame = MultiGet::new(names(&["a", "b"])).into_frame();
    assert_eq!(
        frame,
        Frame::Array(vec![
            Frame::Bulk(Bytes::from_static(b"multiget")),
            Frame::Integer(2),
            Frame::Bulk(Bytes::from_static(b"a")),
            Frame::Bulk(Bytes::from_static(b"b")),
        ])
    );
}

#[test]
fn into_frame_of_no_keys_has_count_zero() {
    let frame = MultiGet::new(Vec::new()).into_frame();
    assert_eq!(frame, Frame::Array(vec![bulk("multiget"), Frame::Integer(0)]));
}

#[test]
fn into_frame_writes_keys_as_utf8() {
    let frame = MultiGet::new(names(&["né"])).into_frame();
    assert_eq!(
        frame,
        Frame::Array(vec![
            bulk("multiget"),
            Frame::Integer(1),
            Frame::Bulk(Bytes::from(vec![0x6e, 0xc3, 0xa9])),
        ])
    );
}

#[test]
fn round_trip_of_some_keys() {
    assert_eq!(round_trip(&["a", "b", "c"]), names(&["a", "b", "c"]));
}

#[test]
fn round_trip_of_no_keys() {
    assert_eq!(round_trip(&[]), Vec::<String>::new());
}

#[test]
fn round_trip_keeps_duplicates() {
    assert_eq!(round_trip(&["k", "k", "j", "k"]), names(&["k", "k", "j", "k"]));
}

#[test]
fn round_trip_of_keys_beyond_ascii() {
    assert_eq!(round_trip(&["", "schlüssel", "鍵", "🔑 key"]), names(&["", "schlüssel", "鍵", "🔑 key"]));
}

#[test]
fn parse_frames_reads_count_then_keys() {
    let frame = Frame::Array(vec![Frame::Integer(2), bulk("x"), bulk("y"), bulk("z")]);
    let mut parse = Parse::new(frame).unwrap();
    let cmd = MultiGet::parse_frames(&mut parse).unwrap();
    assert_eq!(cmd.keys(), &names(&["x", "y"]));
    // Exactly the count and two keys were consumed.
    assert_eq!(parse.next_string(), Ok("z".to_string()));
    assert_eq!(parse.next_string(), Err(ParseError::Exhausted));
}

#[test]
fn parse_frames_accepts_count_zero() {
    let mut parse = Parse::new(Frame::Array(vec![Frame::Integer(0)])).unwrap();
    let cmd = MultiGet::parse_frames(&mut parse).unwrap();
    assert!(cmd.keys().is_empty());
}

#[test]
fn parse_frames_rejects_a_bulk_count() {
    let frame = Frame::Array(vec![bulk("2"), bulk("a"), bulk("b")]);
    let mut parse = Parse::new(frame).unwrap();
    assert_eq!(MultiGet::parse_frames(&mut parse).err(), Some(ParseError::WrongKind));
    // The keys were never read: both are still there.
    assert_eq!(parse.next_string(), Ok("a".to_string()));
    assert_eq!(parse.next_string(), Ok("b".to_string()));
    assert_eq!(parse.next_string(), Err(ParseError::Exhausted));
}

#[test]
fn parse_frames_rejects_a_null_count() {
    let mut parse = Parse::new(Frame::Array(vec![Frame::Null, bulk("a")])).unwrap();
    assert_eq!(MultiGet::parse_frames(&mut parse).err(), Some(ParseError::WrongKind));
}

#[test]
fn parse_frames_rejects_a_truncated_key_list() {
    let frame = Frame::Array(vec![Frame::Integer(3), bulk("a"), bulk("b")]);
    let mut parse = Parse::new(frame).unwrap();
    assert_eq!(MultiGet::parse_frames(&mut parse).err(), Some(ParseError::Exhausted));
    assert_eq!(parse.next_string(), Err(ParseError::Exhausted));
}

#[test]
fn parse_frames_rejects_a_missing_count() {
    let mut parse = Parse::new(Frame::Array(Vec::new())).unwrap();
    assert_eq!(MultiGet::parse_frames(&mut parse).err(), Some(ParseError::Exhausted));
}

#[test]
fn parse_frames_rejects_a_huge_count_on_short_input() {
    let frame = Frame::Array(vec![Frame::Integer(u64::MAX), bulk("a")]);
    let mut parse = Parse::new(frame).unwrap();
    assert_eq!(MultiGet::parse_frames(&mut parse).err(), Some(ParseError::Exhausted));
}

#[test]
fn parse_frames_rejects_an_integer_key() {
    let frame = Frame::Array(vec![Frame::Integer(2), bulk("a"), Frame::Integer(7), bulk("c")]);
    let mut parse = Parse::new(frame).unwrap();
    assert_eq!(MultiGet::parse_frames(&mut parse).err(), Some(ParseError::WrongKind));
    // Reading stopped behind the field of the wrong kind.
    assert_eq!(parse.next_string(), Ok("c".to_string()));
}

#[test]
fn parse_frames_rejects_an_array_key() {
    let frame = Frame::Array(vec![Frame::Integer(1), Frame::Array(vec![bulk("a")])]);
    let mut parse = Parse::new(frame).unwrap();
    assert_eq!(MultiGet::parse_frames(&mut parse).err(), Some(ParseError::WrongKind));
}

#[test]
fn parse_frames_rejects_a_key_that_is_not_utf8() {
    let frame = Frame::Array(vec![Frame::Integer(1), Frame::Bulk(Bytes::from(vec![0xff, 0xfe]))]);
    let mut parse = Parse::new(frame).unwrap();
    assert_eq!(MultiGet::parse_frames(&mut parse).err(), Some(ParseError::WrongKind));
}

#[test]
fn parse_frames_reports_the_first_failure() {
    // The second key is of the wrong kind and the third is missing: the
    // wrong kind is met first.
    let frame = Frame::Array(vec![Frame::Integer(3), bulk("a"), Frame::Null]);
    let mut parse = Parse::new(frame).unwrap();
    assert_eq!(MultiGet::parse_frames(&mut parse).err(), Some(ParseError::WrongKind));
}

#[test]
fn apply_answers_present_and_absent_keys() {
    let db = store(&[("a", "1")]);
    let response = MultiGet::new(names(&["a", "c"])).apply(&db);
    assert_eq!(response, Frame::Array(vec![bulk("1"), Frame::Null]));
}

#[test]
fn apply_answers_duplicates_independently() {
    let db = store(&[("a", "1"), ("b", "2")]);
    let response = MultiGet::new(names(&["b", "a", "b"])).apply(&db);
    assert_eq!(response, Frame::Array(vec![bulk("2"), bulk("1"), bulk("2")]));
}

#[test]
fn apply_of_no_keys_is_an_empty_array() {
    let db = store(&[("a", "1")]);
    let response = MultiGet::new(Vec::new()).apply(&db);
    assert_eq!(response, Frame::Array(Vec::new()));
}

#[test]
fn apply_on_an_empty_store_is_all_null() {
    let response = MultiGet::new(names(&["a", "b"])).apply(&Db::new());
    assert_eq!(response, Frame::Array(vec![Frame::Null, Frame::Null]));
}

#[test]
fn apply_has_one_entry_per_key() {
    let db = store(&[("k1", "v1"), ("k3", "v3")]);
    for count in 0..6 {
        let keys: Vec<String> = (0..count).map(|i| format!("k{}", i)).collect();
        match MultiGet::new(keys).apply(&db) {
            Frame::Array(entries) => assert_eq!(entries.len(), count),
            other => panic!("not an array: {:?}", other),
        }
    }
}

#[test]
fn apply_puts_each_answer_at_the_index_of_its_key() {
    let db = store(&[("x", "10"), ("z", "30")]);
    let keys = names(&["z", "y", "x", "y", "z"]);
    let response = MultiGet::new(keys.clone()).apply(&db);
    let entries = match response {
        Frame::Array(entries) => entries,
        other => panic!("not an array: {:?}", other),
    };
    for (i, key) in keys.iter().enumerate() {
        let expected = match db.get(key) {
            Some(value) => Frame::Bulk(value),
            None => Frame::Null,
        };
        assert_eq!(entries[i], expected);
    }
}

#[test]
fn apply_returns_stored_bytes_unchanged() {
    let mut db = Db::new();
    db.set("raw".to_string(), Bytes::from(vec![0x00, 0xff, 0x0d, 0x0a]));
    let response = MultiGet::new(names(&["raw"])).apply(&db);
    assert_eq!(response, Frame::Array(vec![Frame::Bulk(Bytes::from(vec![0x00, 0xff, 0x0d, 0x0a]))]));
}

#[test]
fn apply_with_asks_once_per_key_in_order() {
    let asked = std::cell::RefCell::new(Vec::new());
    let response = MultiGet::new(names(&["b", "a", "b"])).apply_with(|key: &str| {
        asked.borrow_mut().push(key.to_string());
        None
    });
    assert_eq!(response, Frame::Array(vec![Frame::Null, Frame::Null, Frame::Null]));
    assert_eq!(asked.into_inner(), names(&["b", "a", "b"]));
}

#[test]
fn apply_with_reports_each_lookup_as_it_came_back() {
    // The store changes between the lookups: the same key is answered
    // differently each time it is asked for.
    let calls = Cell::new(0u8);
    let response = MultiGet::new(names(&["k", "k", "k"])).apply_with(|_key: &str| {
        let n = calls.get();
        calls.set(n + 1);
        if n == 1 {
            None
        } else {
            Some(Bytes::from(vec![b'0' + n]))
        }
    });
    assert_eq!(response, Frame::Array(vec![bulk("0"), Frame::Null, bulk("2")]));
}
