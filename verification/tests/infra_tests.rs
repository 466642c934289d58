use arrows::addr::Addr;
use arrows::codec::option_of_bytes;
use arrows::config::{Config, ConfigError, RawSettings};
use arrows::events::{DBAction, DBEvent, EventBucket, EventBuffer, EventRecorder};
use arrows::ids::Timestamp;
use arrows::mail::{Action, Mail, Msg};
use arrows::pubsub::transpose;
use arrows::routing::{group_by, next_flow, process, process_cmd, should_bootup, Flow};
use arrows::sql;
use arrows::text::{check_ip_text, decimal_string, parse_ip, parse_ipv4, parse_u16, parse_usize, reversed, split_two, IpValue};
use arrows::wire::{frame_msgs, valid_marks};

fn config() -> Config {
    Config::with_values("127.0.0.1", 7171, "/tmp", "target/debug/arrows", 1)
}

fn at(secs: u64) -> Timestamp {
    Timestamp { secs, nanos: 0 }
}

#[test]
fn text_parsing() {
    assert_eq!(parse_u16("7171"), Some(7171));
    assert_eq!(parse_u16("+80"), Some(80));
    assert_eq!(parse_u16("65536"), None);
    assert_eq!(parse_u16(""), None);
    assert_eq!(parse_usize("12"), Some(12));
    assert_eq!(decimal_string(0), "0");
    assert_eq!(decimal_string(1234567890), "1234567890");
    assert_eq!(reversed("abc"), "cba");
    assert_eq!(split_two("a:b:c", ':'), ("a".to_string(), Some("b".to_string())));
    assert_eq!(split_two("abc", ':'), ("abc".to_string(), None));
    assert_eq!(parse_ipv4("10.160.0.2"), Some(10 * 16777216 + 160 * 65536 + 2));
    assert_eq!(parse_ipv4("1.2.3"), None);
    assert_eq!(parse_ipv4("01.2.3.4"), None);
    for s in ["127.0.0.1", "::", "::1", "2001:db8::ff00:42:8329", "::ffff:10.0.0.1", "1:2:3:4:5:6:1.2.3.4", "a:b:c:d:e:f:0:1"] {
        assert!(check_ip_text(s), "{}", s);
    }
    for s in ["", "1.2.3.4.5", "256.1.1.1", "1:2:3:4:5:6:7:8:9", "g::1", "1::2::3", "::1:2:3:4:5:6:7:8", "1:2:3:4:5:6:7:1.2.3.4", "localhost"] {
        assert!(!check_ip_text(s), "{}", s);
    }
}

#[test]
fn ip_values() {
    assert_eq!(parse_ip("10.0.0.1"), Some(IpValue::V4(10 * 16777216 + 1)));
    assert_eq!(parse_ip("::1"), Some(IpValue::V6(1)));
    assert_eq!(parse_ip("::"), Some(IpValue::V6(0)));
    assert_eq!(parse_ip("1::"), Some(IpValue::V6(1u128 << 112)));
    assert_eq!(parse_ip("::ffff:1.2.3.4"), Some(IpValue::V6(0xffff_0102_0304)));
    assert_eq!(parse_ip("2001:db8::8a2e:370:7334"), Some(IpValue::V6(0x2001_0db8_0000_0000_0000_8a2e_0370_7334)));
    assert_eq!(parse_ip("FFFF:0:0:0:0:0:0:abcd"), Some(IpValue::V6(0xffff_0000_0000_0000_0000_0000_0000_abcd)));
    assert_eq!(parse_ip("1:2:3:4:5:6:7.8.9.10"), Some(IpValue::V6(0x0001_0002_0003_0004_0005_0006_0708_090a)));
    assert_eq!(parse_ip("1:2:3:4:5:6:7"), None);
    assert_eq!(parse_ip("host"), None);
}

#[test]
fn codec_matches_bincode() {
    assert_eq!(option_of_bytes("Content"), Some(bincode::serialize("Content").unwrap()));
    let bytes = bincode::serialize("héllo").unwrap();
    assert_eq!(Msg::with_binary_content(Some(bytes)).as_text(), Some("héllo"));
    assert_eq!(Msg::with_binary_content(Some(vec![1, 0])).as_text(), None);
}

#[test]
fn config_from_settings() {
    let raw = |listen: Option<&str>, port: Option<&str>, size: Option<&str>| RawSettings {
        db_path: None,
        resident_listener: None,
        listen_addr: listen.map(|s| s.to_string()),
        port: port.map(|s| s.to_string()),
        local_ip: Some("10.0.0.5".to_string()),
        db_buff_size: size.map(|s| s.to_string()),
        windows: false,
    };
    let c = Config::from_settings(raw(None, None, None)).unwrap();
    assert_eq!(c.host(), "10.0.0.5");
    assert_eq!(c.port(), 7171);
    assert_eq!(c.db_path(), "/tmp");
    assert_eq!(c.resident_listener(), "target/debug/arrows");
    assert_eq!(c.db_buff_size(), 1);
    let c = Config::from_settings(raw(Some("1.2.3.4:8181"), Some("9"), Some("4"))).unwrap();
    assert_eq!((c.host(), c.port(), c.db_buff_size()), ("1.2.3.4", 8181, 4));
    let c = Config::from_settings(raw(Some("1.2.3.4"), None, None)).unwrap();
    assert_eq!(c.port(), 7171);
    assert_eq!(Config::from_settings(raw(None, Some("port"), None)).err(), Some(ConfigError::PortNum));
    assert_eq!(Config::from_settings(raw(None, None, Some("-1"))).err(), Some(ConfigError::DbBuffSize));
    let mut c = config();
    c.set_port(1);
    c.set_host("h");
    assert_eq!((c.host(), c.port()), ("h", 1));
    Config::re_init(&mut c, config());
    assert_eq!(c.port(), 7171);
}

#[test]
fn event_buffer_flushes_when_full_or_old() {
    let mut b = EventBuffer::new();
    assert!(!b.should_flush_at(at(100)));
    b.add_at(DBEvent::from_directed(1, true), at(10));
    assert!(!b.should_flush_at(at(10)));
    assert!(b.should_flush_at(at(11)));
    for i in 2..5 {
        b.add_at(DBEvent::from_directed(i, false), at(10));
    }
    assert!(!b.overflown());
    b.add_at(DBEvent::from_directed(5, true), at(10));
    assert!(b.overflown());
    let flushed = b.flush();
    assert_eq!(flushed.iter().map(|e| e.1).collect::<Vec<_>>(), vec![1, 2, 3, 4, 5]);
    assert!(flushed[0].is_inbound());
    assert!(!flushed[1].is_inbound());
    assert!(!b.overflown());
}

#[test]
fn event_bucket_delivers_every_event_once() {
    let mut bucket = EventBucket::new();
    let mut delivered = Vec::new();
    for i in 0..12 {
        if let Some(batch) = bucket.add_event_at(DBEvent::from_directed(i, true), at(50)) {
            assert_eq!(batch.len(), 5);
            delivered.extend(batch.into_iter().map(|e| e.1));
        }
    }
    assert_eq!(delivered, (0..10).collect::<Vec<_>>());
    let late = bucket.add_event_at(DBEvent::from_directed(12, true), at(52)).unwrap();
    assert_eq!(late.iter().map(|e| e.1).collect::<Vec<_>>(), vec![10, 11, 12]);
    // The receipt time of the oldest event stays after a delivery until the next first event.
    assert!(bucket.should_persist_events_at(at(52)));
    let next = bucket.add_event_at(DBEvent::from_directed(13, true), at(60));
    assert!(next.is_none());
    assert!(!bucket.should_persist_events_at(at(60)));
}

#[test]
fn store_updates_become_events() {
    let e = DBEvent::of_update(DBAction::Insert, "inbox_42", 7).unwrap();
    assert_eq!((e.0.as_str(), e.1), ("inbox_42", 7));
    assert!(DBEvent::of_update(DBAction::Insert, "outbox", 7).is_some());
    assert!(DBEvent::of_update(DBAction::Delete, "inbox", 7).is_none());
    assert!(DBEvent::of_update(DBAction::Insert, "actors", 7).is_none());
    assert!(DBEvent::from_directed(3, true).is_inbound());
    assert!(!DBEvent::of_update(DBAction::Insert, "inbox_1", 1).unwrap().is_inbound());
}

#[test]
fn recorder_hands_over_rows_at_capacity() {
    let mut r = EventRecorder::new();
    for i in 0..1000 {
        assert!(r.record_event(DBEvent(format!("{}_inbox", i % 3), i)).is_none());
    }
    let rows = r.record_event(DBEvent("noactor".to_string(), 1000)).unwrap();
    assert_eq!(rows.len(), 1000);
    assert_eq!(rows[4], (4, "1".to_string()));
    assert!(r.drain().is_empty());
    r.record_event(DBEvent("7_outbox".to_string(), 3));
    assert_eq!(r.drain(), vec![(3, "7".to_string())]);
}

#[test]
fn transpose_pads_short_rows() {
    let a = Msg::from_text("a");
    let b = Msg::from_text("b");
    let c = Msg::from_text("c");
    let mut rows = vec![vec![Mail::Trade(a.clone()), Mail::Trade(b.clone())], vec![Mail::Trade(c.clone())]];
    let cols = transpose(&mut rows);
    assert_eq!(cols, vec![vec![Mail::Trade(a), Mail::Trade(c)], vec![Mail::Trade(b), Mail::Blank]]);
    assert!(rows.iter().all(|r| r.is_empty()));
    assert_eq!(rows.len(), 2);
}

#[test]
fn sql_statements() {
    assert_eq!(sql::inbox_table("42"), "CREATE TABLE IF NOT EXISTS inbox_42 (msg_id TEXT PRIMARY KEY, msg BLOB)");
    assert_eq!(sql::outbox_table("42"), "CREATE TABLE IF NOT EXISTS outbox_42 (msg_id TEXT PRIMARY KEY, msg BLOB)");
    assert_eq!(sql::inbox_exists("42"), "SELECT count(1) FROM sqlite_master WHERE type='table' AND name='inbox_42'");
    assert_eq!(sql::purge_inbox("42"), "DELETE FROM inbox_42");
    assert_eq!(sql::delete_from_inbox("42"), "DELETE FROM inbox_42 WHERE msg_id = ?");
    assert_eq!(sql::inbox_insert("42"), "INSERT INTO inbox_42 (msg_id, msg) VALUES (:msg_id, :msg)");
    assert_eq!(sql::outbox_insert("42"), "INSERT INTO outbox_42 (msg_id, msg) VALUES (:msg_id, :msg)");
    assert_eq!(sql::read_inbox("42", sql::FETCH_LIMIT), "SELECT msg FROM inbox_42 ORDER BY rowid ASC LIMIT 100");
    assert_eq!(sql::read_inbox_full("42"), "SELECT msg FROM inbox_42 ORDER BY rowid ASC");
    assert_eq!(sql::select_from_inbox("1000", &vec!["a", "b", "c"]), "SELECT msg FROM inbox_1000 WHERE msg_id in ('a','b','c')");
    assert_eq!(sql::select_from_inbox("1000", &vec!["a"]), "SELECT msg FROM inbox_1000 WHERE msg_id in ('a')");
    assert_eq!(sql::quoted_ids(&vec![]), "");
    assert_eq!(sql::newest_first(vec![1, 2, 3]), vec![3, 2, 1]);
}

#[test]
fn grouping_by_node() {
    let config = config();
    let mut a = Msg::with_text("1", "f", "t", &config);
    let mut b = Msg::with_text("2", "f", "t", &config);
    let c = Msg::with_text("3", "f", "t", &config);
    let mut far = Addr::new("x", &config);
    far.with_ip("10.0.0.9");
    a.set_recipient_addr(&far);
    b.set_recipient_addr(&far);
    let unaddressed = Msg::from_text("none");
    let groups = group_by(vec![a.clone(), c.clone(), unaddressed, b.clone()]);
    assert_eq!(groups.len(), 2);
    assert_eq!(groups[0].0, (IpValue::V4(10 * 16777216 + 9), 7171));
    assert_eq!(groups[0].1, vec![a, b]);
    assert_eq!(groups[1].0, (IpValue::V4(127 * 16777216 + 1), 7171));
    assert_eq!(groups[1].1, vec![c]);
}

#[test]
fn bootup_is_for_this_node_and_ordinary_mail() {
    let config = config();
    let lo = IpValue::V4(127 * 16777216 + 1);
    let msgs = vec![Msg::with_text("x", "f", "t", &config)];
    assert!(should_bootup(&msgs, lo, &config));
    assert!(!should_bootup(&msgs, IpValue::V4(10 * 16777216 + 1), &config));
    assert!(!should_bootup(&msgs, IpValue::V6(1), &config));
    assert!(!should_bootup(&vec![Msg::shutdown()], lo, &config));
    assert!(!should_bootup(&vec![Msg::echo("hi")], lo, &config));
    assert!(should_bootup(&vec![], lo, &config));
    let named = Config::with_values("localhost", 7171, "/tmp", "target/debug/arrows", 1);
    assert!(!should_bootup(&msgs, lo, &named));
}

#[test]
fn listener_decisions() {
    assert_eq!(process_cmd(Mail::Bulk(vec![Msg::echo("abc")])), Action::Echo("cba".to_string()));
    assert_eq!(process_cmd(Mail::Bulk(vec![Msg::shutdown()])), Action::Shutdown);
    assert_eq!(process_cmd(Mail::Blank), Action::Continue);
    let (a, stored) = process(Mail::Bulk(vec![Msg::echo("ab")]));
    assert_eq!(a, Action::Echo("ba".to_string()));
    assert!(stored.is_none());
    let (a, stored) = process(Mail::Bulk(vec![Msg::from_text("data")]));
    assert_eq!(a, Action::Continue);
    assert!(stored.is_some());
    let (a, stored) = process(Mail::Trade(Msg::shutdown()));
    assert_eq!(a, Action::Continue);
    assert!(stored.is_none());
    let mut response = "Ok".to_string();
    assert_eq!(next_flow(Action::Continue, &mut response), Flow::Next);
    assert_eq!(next_flow(Action::Echo("pong".to_string()), &mut response), Flow::Answer);
    assert_eq!(response, "pong");
    assert_eq!(next_flow(Action::Shutdown, &mut response), Flow::Shutdown);
}

#[test]
fn framed_mail_starts_with_its_bytes() {
    let m = Msg::from_text("wire");
    let expected = Mail::Bulk(vec![m.clone()]).to_bytes();
    let framed = frame_msgs(vec![m], &byte_marks::MARK, &byte_marks::TAIL);
    assert_eq!(&framed[..expected.len()], &expected[..]);
    assert_eq!(&framed[expected.len()..], byte_marks::TAIL.as_bytes());
    let m2 = Msg::from_text("wire");
    let expected = Mail::Bulk(vec![m2.clone()]).to_bytes();
    let framed = frame_msgs(vec![m2], "<m>", "#end");
    assert_eq!(&framed[..expected.len()], &expected[..]);
    assert_eq!(&framed[expected.len()..], b"#end");
    let mut marker = Vec::new();
    byte_marks::ByteMarker::new("<m>", "#end").mark_tail(&mut marker);
    assert_eq!(marker, b"#end".to_vec());
}

#[test]
fn byte_marks_are_checked() {
    assert!(valid_marks(&byte_marks::MARK, &byte_marks::TAIL));
    assert!(valid_marks("<m>", "#end"));
    assert!(!valid_marks("", "#end"));
    assert!(!valid_marks("ab", "ab"));
    assert!(!valid_marks("aba", "#end"));
    assert!(!valid_marks("<m>", "#ee"));
    assert!(valid_marks("<m>", ""));
}

#[test]
fn buffers_age_on_their_own_monotonic_clock() {
    let mut b = EventBuffer::new();
    assert!(!b.has_matured());
    b.add(DBEvent::from_directed(1, true));
    // Just added: far from a second old on the buffer's clock.
    assert!(!b.has_matured());
    assert!(!b.should_flush());
    let mut bucket = EventBucket::new();
    assert!(!bucket.oldest_matured());
    assert!(bucket.add_event(DBEvent::from_directed(2, true)).is_none());
}
