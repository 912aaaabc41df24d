use tsmean::request::{Query, FRAME_LEN, INSERT_TAG, QUERY_TAG};
use tsmean::session::{Action, Event, Session};
use tsmean::store::SessionStore;
use tsmean::wire::{decode_i32, encode_i32};

fn frame(tag: u8, a: i32, b: i32) -> [u8; 9] {
    let x = a.to_be_bytes();
    let y = b.to_be_bytes();
    [tag, x[0], x[1], x[2], x[3], y[0], y[1], y[2], y[3]]
}

fn insert(s: &mut Session, ts: i32, v: i32) {
    assert_eq!(s.step(Event::Frame(frame(b'I', ts, v))), Action::Stored { timestamp: ts, value: v });
}

fn ask(s: &mut Session, lo: i32, hi: i32) -> [u8; 4] {
    match s.step(Event::Frame(frame(b'Q', lo, hi))) {
        Action::Answer { min_ts, max_ts, mean, reply } => {
            assert_eq!((min_ts, max_ts), (lo, hi));
            assert_eq!(reply, mean.to_be_bytes());
            reply
        }
        other => panic!("expected an answer, got {:?}", other),
    }
}

#[test]
fn example_session_mean() {
    let mut s = Session::new();
    insert(&mut s, 12345, 101);
    insert(&mut s, 12346, 102);
    insert(&mut s, 12347, 100);
    insert(&mut s, 40960, 5);
    assert_eq!(ask(&mut s, 12288, 16384), 101i32.to_be_bytes());
    assert_eq!(ask(&mut s, 12288, 16384), [0, 0, 0, 101]);
}

#[test]
fn fresh_session_query_is_zero() {
    let mut s = Session::new();
    assert_eq!(ask(&mut s, 0, 0), [0, 0, 0, 0]);
}

#[test]
fn unknown_tag_is_skipped_and_session_continues() {
    let mut s = Session::new();
    let f = [0x58, 1, 2, 3, 4, 5, 6, 7, 8];
    assert_eq!(s.step(Event::Frame(f)), Action::Skip);
    assert!(s.is_open());
    insert(&mut s, 3, 9);
    assert_eq!(ask(&mut s, 0, 10), 9i32.to_be_bytes());
}

#[test]
fn end_of_stream_mid_frame_closes_quietly() {
    let mut s = Session::new();
    insert(&mut s, 1, 1);
    assert_eq!(s.step(Event::EndOfStream), Action::Close { failed: false });
    assert!(!s.is_open());
    assert_eq!(s.step(Event::Frame(frame(b'Q', 0, 5))), Action::Close { failed: false });
    let mut second = Session::new();
    insert(&mut second, 2, 4);
    assert_eq!(ask(&mut second, 0, 5), 4i32.to_be_bytes());
}

#[test]
fn failures_close_and_are_reported() {
    let mut s = Session::new();
    assert_eq!(s.step(Event::ReadFailed), Action::Close { failed: true });
    assert!(!s.is_open());
    let mut t = Session::new();
    assert_eq!(t.step(Event::WriteFailed), Action::Close { failed: true });
    assert!(!t.is_open());
}

#[test]
fn sessions_are_isolated() {
    let mut a = Session::new();
    let mut b = Session::new();
    insert(&mut a, 100, 50);
    assert_eq!(ask(&mut b, 100, 100), [0, 0, 0, 0]);
    insert(&mut b, 100, 8);
    assert_eq!(ask(&mut a, 100, 100), 50i32.to_be_bytes());
    assert_eq!(ask(&mut b, 100, 100), 8i32.to_be_bytes());
}

#[test]
fn reinsert_replaces_value() {
    let mut db = SessionStore::new();
    db.insert(7, 10);
    db.insert(7, 30);
    db.insert(8, 20);
    assert_eq!(db.mean(7, 8), 25);
    assert_eq!(db.mean(7, 7), 30);
}

#[test]
fn inverted_range_is_zero() {
    let mut db = SessionStore::new();
    db.insert(5, 100);
    db.insert(6, 100);
    assert_eq!(db.mean(6, 5), 0);
    assert_eq!(db.mean(i32::MAX, i32::MIN), 0);
}

#[test]
fn untouched_range_is_zero() {
    let mut db = SessionStore::new();
    db.insert(-10, 3);
    db.insert(10, 3);
    assert_eq!(db.mean(-9, 9), 0);
}

#[test]
fn keys_outside_range_never_count() {
    let mut db = SessionStore::new();
    db.insert(0, 1000);
    db.insert(1, 2);
    db.insert(2, 4);
    db.insert(3, -1000);
    assert_eq!(db.mean(1, 2), 3);
    assert_eq!(db.mean(0, 3), 1);
}

#[test]
fn mean_truncates_toward_zero() {
    let mut db = SessionStore::new();
    db.insert(1, -3);
    db.insert(2, -4);
    assert_eq!(db.mean(1, 2), -3);
    db.insert(3, 0);
    db.insert(4, 14);
    assert_eq!(db.mean(1, 4), 1);
}

#[test]
fn large_values_do_not_overflow() {
    let mut db = SessionStore::new();
    for k in 0..100 {
        db.insert(k, i32::MAX);
    }
    assert_eq!(db.mean(0, 99), i32::MAX);
    for k in 100..200 {
        db.insert(k, i32::MIN);
    }
    assert_eq!(db.mean(100, 199), i32::MIN);
    assert_eq!(db.mean(0, 199), 0);
    assert_eq!(db.mean(i32::MIN, i32::MAX), 0);
    assert_eq!(db.mean(1, 100), ((99 * (i32::MAX as i64) + i32::MIN as i64) / 100) as i32);
}

#[test]
fn extreme_keys_are_in_range() {
    let mut db = SessionStore::new();
    db.insert(i32::MIN, 6);
    db.insert(i32::MAX, 2);
    assert_eq!(db.mean(i32::MIN, i32::MIN), 6);
    assert_eq!(db.mean(i32::MAX, i32::MAX), 2);
    assert_eq!(db.mean(i32::MIN, i32::MAX), 4);
}

#[test]
fn decode_insert_query_unknown() {
    assert_eq!(FRAME_LEN, 9);
    assert_eq!(INSERT_TAG, b'I');
    assert_eq!(QUERY_TAG, b'Q');
    let f = [0x49, 0x00, 0x00, 0x30, 0x39, 0x00, 0x00, 0x00, 0x65];
    assert_eq!(Query::decode(&f), Query::Insert { timestamp: 12345, value: 101 });
    let g = [0x51, 0xff, 0xff, 0xff, 0xff, 0x80, 0x00, 0x00, 0x00];
    assert_eq!(Query::decode(&g), Query::Query { min_ts: -1, max_ts: i32::MIN });
    let h = [b'i', 0, 0, 0, 1, 0, 0, 0, 2];
    assert_eq!(Query::decode(&h), Query::Unknown);
}

#[test]
fn process_applies_requests() {
    let mut db = SessionStore::new();
    assert_eq!(Query::Insert { timestamp: 4, value: 9 }.process(&mut db), None);
    assert_eq!(Query::Insert { timestamp: 6, value: 2 }.process(&mut db), None);
    assert_eq!(Query::Unknown.process(&mut db), None);
    assert_eq!(Query::Query { min_ts: 0, max_ts: 10 }.process(&mut db), Some(5));
    assert_eq!(Query::Query { min_ts: 5, max_ts: 10 }.process(&mut db), Some(2));
}

#[test]
fn integer_bytes_round_trip() {
    for x in [0, 1, -1, 101, 12345, -12345, 0x1234_5678, i32::MAX, i32::MIN] {
        let b = encode_i32(x);
        assert_eq!(b, x.to_be_bytes());
        assert_eq!(decode_i32(b[0], b[1], b[2], b[3]), x);
    }
    assert_eq!(encode_i32(-2), [0xff, 0xff, 0xff, 0xfe]);
    assert_eq!(decode_i32(0x80, 0, 0, 1), i32::MIN + 1);
}
