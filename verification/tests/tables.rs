use mqtt_kv::last_message::{LastMessagePoll, Polled};
use mqtt_kv::messages::{ContentDumpInfo, HeartbeatInfo, RequestInfo};
use mqtt_kv::monitor::{self, HeartbeatTable};
use mqtt_kv::reconnect::{ReconnectStep, Reconnection, RECONNECT_ATTEMPTS, RECONNECT_DELAY_MS};
use mqtt_kv::values_table::{ExternalConnectionRequestType, TableReply, ValueTable, ValueTableRequest, ValueTableRequestType};

fn table_request(kind: ValueTableRequestType, key: &str, value: i32) -> ValueTableRequest {
    ValueTableRequest {
        request_type: kind,
        request_info: RequestInfo {
            req_type: String::new(),
            key: key.to_string(),
            value,
            return_topic: "CLIENT_TOPIC_5".to_string(),
            last_seen: -1,
        },
        server_num: 2,
    }
}

#[test]
fn search_finds_the_last_insert() {
    let mut t = ValueTable::new();
    assert!(matches!(t.handle(table_request(ValueTableRequestType::Search, "a", -1)), TableReply::NotFound));
    assert!(matches!(t.handle(table_request(ValueTableRequestType::Insert, "a", 1)), TableReply::Stored));
    assert!(matches!(t.handle(table_request(ValueTableRequestType::Insert, "b", 2)), TableReply::Stored));
    assert!(matches!(t.handle(table_request(ValueTableRequestType::Insert, "a", 3)), TableReply::Stored));
    match t.handle(table_request(ValueTableRequestType::Search, "a", -1)) {
        TableReply::Found(r) => {
            assert_eq!(r.request_type, ExternalConnectionRequestType::SearchReturn);
            assert_eq!((r.value, r.value_str.as_str(), r.return_topic.as_str()), (3, "", "CLIENT_TOPIC_5"));
        }
        other => panic!("unexpected {:?}", other),
    }
    assert_eq!(t.get(&"b".to_string()), Some(2));
    assert_eq!(t.get(&"c".to_string()), None);
}

#[test]
fn dump_lists_every_key_once_and_restores() {
    let mut t = ValueTable::new();
    for (k, v) in [("x", 1), ("y", 2), ("x", 5), ("z", -7)] {
        t.handle(table_request(ValueTableRequestType::Insert, k, v));
    }
    let (contents, topic) = match t.handle(table_request(ValueTableRequestType::DumpContents, "", -1)) {
        TableReply::Dump { contents, return_topic } => (contents, return_topic),
        other => panic!("unexpected {:?}", other),
    };
    assert_eq!(topic, "RESTART_SERVER_2");
    assert_eq!(
        contents.payload,
        vec![("x".to_string(), 5), ("y".to_string(), 2), ("z".to_string(), -7)]
    );
    let restored = ValueTable::from_contents(contents);
    for (k, v) in [("x", Some(5)), ("y", Some(2)), ("z", Some(-7)), ("w", None)] {
        assert_eq!(restored.get(&k.to_string()), v);
    }
    let empty = ValueTable::new().contents();
    assert!(empty.payload.is_empty());
    let later = ValueTable::from_contents(ContentDumpInfo { payload: vec![("k".to_string(), 1), ("k".to_string(), 2)] });
    assert_eq!(later.get(&"k".to_string()), Some(2));
}

#[test]
fn reconnect_gives_up_after_three_failures() {
    assert_eq!((RECONNECT_ATTEMPTS, RECONNECT_DELAY_MS), (3, 5000));
    let mut r = Reconnection::new();
    let mut tries = 0;
    while r.step() == ReconnectStep::Attempt {
        r.record(false);
        tries += 1;
    }
    assert_eq!(r.step(), ReconnectStep::GiveUp);
    assert_eq!(tries, 3);
}

#[test]
fn reconnect_stops_at_first_success() {
    let mut r = Reconnection::new();
    let outcomes = [false, true, false];
    let mut tries = 0;
    while r.step() == ReconnectStep::Attempt {
        r.record(outcomes[tries]);
        tries += 1;
    }
    assert_eq!(r.step(), ReconnectStep::Reconnected);
    assert_eq!(tries, 2);
}

#[test]
fn last_message_is_read_after_draining() {
    let mut p = LastMessagePoll::new();
    assert!(p.keep_polling(&Polled::Nothing));
    assert!(p.absorb(Polled::Nothing, false));
    assert!(!p.absorb(Polled::Nothing, true));
    assert!(p.keep_polling(&Polled::ConnectionSignal));
    assert!(!p.absorb(Polled::ConnectionSignal, false));
    assert!(p.keep_polling(&Polled::Payload("first".to_string())));
    p.absorb(Polled::Payload("first".to_string()), true);
    assert!(p.keep_polling(&Polled::Payload("second".to_string())));
    p.absorb(Polled::Payload("second".to_string()), true);
    assert!(!p.keep_polling(&Polled::Nothing));
    assert_eq!(p.message(), "second");
}

#[test]
fn monitor_keeps_last_heartbeat() {
    let mut t = HeartbeatTable::new();
    let beat = |server: i32, ts: &str, kind| monitor::ValueTableRequest {
        heartbeat_info: Some(HeartbeatInfo { server_number: server, timestamp: ts.to_string() }),
        request_type: kind,
    };
    assert_eq!(t.last_heartbeat(1), None);
    t.handle(beat(1, "100", monitor::ValueTableRequestType::Insert));
    t.handle(beat(2, "101", monitor::ValueTableRequestType::Insert));
    t.handle(beat(1, "104", monitor::ValueTableRequestType::Insert));
    t.handle(beat(2, "999", monitor::ValueTableRequestType::Search));
    assert_eq!(t.last_heartbeat(1), Some("104".to_string()));
    assert_eq!(t.last_heartbeat(2), Some("101".to_string()));
    assert_eq!(t.last_heartbeat(3), None);
    t.handle(monitor::ValueTableRequest { heartbeat_info: None, request_type: monitor::ValueTableRequestType::Search });
    t.handle(monitor::ValueTableRequest { heartbeat_info: None, request_type: monitor::ValueTableRequestType::Insert });
    assert_eq!(t.last_heartbeat(1), Some("104".to_string()));
    assert_eq!(t.last_heartbeat(2), Some("101".to_string()));
}

fn sent(reply: &TableReply) -> bool {
    matches!(reply, TableReply::Found(_) | TableReply::Dump { .. })
}

#[test]
fn a_run_answers_with_the_last_insert_and_sends_hits_and_dumps() {
    let mut t = ValueTable::new();
    let run = vec![
        table_request(ValueTableRequestType::Search, "k", -1),
        table_request(ValueTableRequestType::Insert, "k", 1),
        table_request(ValueTableRequestType::Insert, "j", 9),
        table_request(ValueTableRequestType::Insert, "k", 4),
        table_request(ValueTableRequestType::Search, "k", -1),
        table_request(ValueTableRequestType::DumpContents, "", -1),
        table_request(ValueTableRequestType::Search, "z", -1),
    ];
    let replies = t.handle_all(run);
    assert_eq!(replies.len(), 7);
    let sends: Vec<bool> = replies.iter().map(sent).collect();
    assert_eq!(sends, vec![false, false, false, false, true, true, false]);
    match &replies[4] {
        TableReply::Found(r) => assert_eq!(r.value, 4),
        other => panic!("unexpected {:?}", other),
    }
    match &replies[5] {
        TableReply::Dump { contents, .. } => {
            assert_eq!(contents.payload, vec![("k".to_string(), 4), ("j".to_string(), 9)])
        }
        other => panic!("unexpected {:?}", other),
    }
}

#[test]
fn reads_removed_from_a_run_change_no_later_reply() {
    let with_reads = vec![
        table_request(ValueTableRequestType::Insert, "a", 1),
        table_request(ValueTableRequestType::Search, "a", -1),
        table_request(ValueTableRequestType::DumpContents, "", -1),
        table_request(ValueTableRequestType::Insert, "b", 2),
        table_request(ValueTableRequestType::Search, "b", -1),
    ];
    let without_reads = vec![
        table_request(ValueTableRequestType::Insert, "a", 1),
        table_request(ValueTableRequestType::Insert, "b", 2),
        table_request(ValueTableRequestType::Search, "b", -1),
    ];
    let r1 = ValueTable::new().handle_all(with_reads);
    let r2 = ValueTable::new().handle_all(without_reads);
    assert_eq!(format!("{:?}", &r1[3..]), format!("{:?}", &r2[1..]));
}

#[test]
fn defaults_and_clones() {
    let h = HeartbeatInfo::default();
    assert_eq!((h.server_number, h.timestamp.as_str()), (0, ""));
    assert!(ContentDumpInfo::default().payload.is_empty());
    let d = ContentDumpInfo { payload: vec![("x".to_string(), 3), ("y".to_string(), -1)] };
    assert_eq!(d.clone().payload, d.payload);
    let h2 = HeartbeatInfo { server_number: 4, timestamp: "12".to_string() }.clone();
    assert_eq!((h2.server_number, h2.timestamp.as_str()), (4, "12"));
}
