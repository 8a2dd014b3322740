use mqtt_kv::client::{check_search_result, die_request, insert_request, no_search_answer, search_request, SearchCheck};
use mqtt_kv::client_ids::{client_client_id, monitor_client_id, new_server_client_id, server_client_id, sub_client_id};
use mqtt_kv::communicator::{heartbeat_info, Outgoing};
use mqtt_kv::messages::{RequestInfo, RequestKind, SearchReturnInfo};
use mqtt_kv::responsibility::{bucket_of, char_sum_fits, key_char_sum};
use mqtt_kv::routing::{handle_request, RequestAction};
use mqtt_kv::text::{i64_to_decimal, u64_to_decimal, with_decimal_suffix};
use mqtt_kv::topics::{client_return_topic, restart_server_topic, DFLT_MONITOR_TOPIC, DFLT_REQ_TOPIC};
use mqtt_kv::values_table::{ExternalConnectionRequest, ExternalConnectionRequestType, ValueTableRequestType};
use mqtt_kv::{is_this_node_search_responsability, should_become_substitute};

fn request(req_type: &str, key: &str, value: i32) -> RequestInfo {
    RequestInfo {
        req_type: req_type.to_string(),
        key: key.to_string(),
        value,
        return_topic: "CLIENT_TOPIC_1".to_string(),
        last_seen: -1,
    }
}

#[test]
fn decimal_text() {
    for n in [0i64, 7, 9, 10, 99, 100, 12345, -1, -10, i64::MAX, i64::MIN] {
        assert_eq!(i64_to_decimal(n), n.to_string());
    }
    for n in [0u64, 5, 10, 1000000007, u64::MAX] {
        assert_eq!(u64_to_decimal(n), n.to_string());
    }
    assert_eq!(with_decimal_suffix("X", 0), "X0");
    assert_eq!(with_decimal_suffix("X", -12), "X-12");
    assert_eq!(with_decimal_suffix("", i64::MIN), "-9223372036854775808");
    assert_eq!(heartbeat_info(0, 0).timestamp, "0");
    assert_eq!(heartbeat_info(0, u64::MAX).timestamp, "18446744073709551615");
}

#[test]
fn topics_and_client_ids() {
    assert_eq!(DFLT_REQ_TOPIC, "inf1406-reqs");
    assert_eq!(DFLT_MONITOR_TOPIC, "inf1406-mon");
    assert_eq!(client_return_topic(7), "CLIENT_TOPIC_7");
    assert_eq!(restart_server_topic(3), "RESTART_SERVER_3");
    assert_eq!(client_client_id(4), "CLIENT_4");
    assert_eq!(monitor_client_id(&"REQUESTS".to_string()), "MONITOR_REQUESTS");
    assert_eq!(sub_client_id(None), "SUB_CLIENT_0");
    assert_eq!(sub_client_id(Some("9".to_string())), "SUB_CLIENT_9");
    assert_eq!(server_client_id(None, 2, "abc"), "SERVER_2_abc");
    assert_eq!(server_client_id(Some("SERVER_HEARTBEAT".to_string()), 11, "u"), "SERVER_HEARTBEAT_11_u");
}

#[test]
fn fresh_server_client_ids_are_unique_and_well_formed() {
    let a = new_server_client_id(Some("SERVER_EXTERNAL_COMM".to_string()), 5);
    let b = new_server_client_id(Some("SERVER_EXTERNAL_COMM".to_string()), 5);
    assert_ne!(a, b);
    let prefix = "SERVER_EXTERNAL_COMM_5_";
    assert!(a.starts_with(prefix));
    let uuid = &a[prefix.len()..];
    assert_eq!(uuid.len(), 36);
    let chars: Vec<char> = uuid.chars().collect();
    for (i, c) in chars.iter().enumerate() {
        if i == 8 || i == 13 || i == 18 || i == 23 {
            assert_eq!(*c, '-');
        } else {
            assert!(c.is_ascii_hexdigit() && !c.is_ascii_uppercase());
        }
    }
    assert_eq!(chars[14], '4');
    assert!(['8', '9', 'a', 'b'].contains(&chars[19]));
    assert!(new_server_client_id(None, 0).starts_with("SERVER_0_"));
}

#[test]
fn request_kinds() {
    for (text, kind) in [
        ("INSERT", RequestKind::Insert),
        ("SEARCH", RequestKind::Search),
        ("FALHASERV", RequestKind::ServerFailure),
        ("NOVOSERV", RequestKind::NewServer),
        ("DIE", RequestKind::Die),
    ] {
        assert_eq!(RequestKind::parse(&text.to_string()), Some(kind));
        assert_eq!(kind.text(), text);
    }
    assert_eq!(RequestKind::parse(&"insert".to_string()), None);
    assert_eq!(RequestKind::parse(&String::new()), None);
}

#[test]
fn client_requests() {
    let r = insert_request("k".to_string(), 5, "CLIENT_TOPIC_2".to_string());
    assert_eq!((r.req_type.as_str(), r.key.as_str(), r.value, r.return_topic.as_str(), r.last_seen), ("INSERT", "k", 5, "CLIENT_TOPIC_2", -1));
    let s = search_request("k".to_string(), "CLIENT_TOPIC_2".to_string());
    assert_eq!((s.req_type.as_str(), s.key.as_str(), s.value, s.return_topic.as_str(), s.last_seen), ("SEARCH", "k", -1, "CLIENT_TOPIC_2", -1));
    let d = die_request(3);
    assert_eq!((d.req_type.as_str(), d.key.as_str(), d.value, d.return_topic.as_str(), d.last_seen), ("DIE", "", 3, "", -1));
    let n = no_search_answer();
    assert_eq!((n.value, n.return_server), (-1, -1));
    let def = RequestInfo::default();
    assert_eq!((def.req_type.as_str(), def.key.as_str(), def.value, def.return_topic.as_str(), def.last_seen), ("", "", 0, "", 0));
}

#[test]
fn search_result_checks() {
    let got = SearchReturnInfo { value: 10, return_server: 2 };
    assert_eq!(check_search_result(-1, -1, &got), SearchCheck::Matches);
    assert_eq!(check_search_result(10, 2, &got), SearchCheck::Matches);
    assert_eq!(check_search_result(11, 2, &got), SearchCheck::ValueMismatch { expected: 11, received: 10 });
    assert_eq!(check_search_result(11, 3, &got), SearchCheck::ValueMismatch { expected: 11, received: 10 });
    assert_eq!(check_search_result(-1, 3, &got), SearchCheck::ServerMismatch { expected: 3, received: 2 });
    assert_eq!(check_search_result(10, 3, &got), SearchCheck::ServerMismatch { expected: 3, received: 2 });
}

#[test]
fn character_sums_and_buckets() {
    assert_eq!(key_char_sum(&"abc".to_string()), 294);
    assert_eq!(key_char_sum(&String::new()), 0);
    assert_eq!(key_char_sum(&"é".to_string()), 233);
    assert_eq!(bucket_of(&"abc".to_string(), 3), 0);
    assert_eq!(bucket_of(&"abd".to_string(), 3), 1);
    assert_eq!(bucket_of(&"abd".to_string(), -3), 1);
    assert_eq!(bucket_of(&"abd".to_string(), 1), 0);
    assert!(char_sum_fits(&"hello".to_string()));
    let long: String = std::iter::repeat('\u{10FFFF}').take(1950).collect();
    assert!(!char_sum_fits(&long));
    let just: String = std::iter::repeat('\u{10FFFF}').take(1900).collect();
    assert!(char_sum_fits(&just));
}

#[test]
fn search_responsibility() {
    let r = request("SEARCH", "abd", -1);
    assert!(is_this_node_search_responsability(&r, &vec![1], &3));
    assert!(!is_this_node_search_responsability(&r, &vec![0, 2], &3));
    assert!(is_this_node_search_responsability(&r, &vec![0, 2, 1], &3));
    assert!(!is_this_node_search_responsability(&r, &vec![], &3));
}

#[test]
fn exactly_one_server_answers_each_key() {
    for key in ["", "a", "hello", "inf1406", "chave-42"] {
        let r = request("SEARCH", key, -1);
        for count in 1..6 {
            let answering: Vec<i32> = (0..count)
                .filter(|s| is_this_node_search_responsability(&r, &vec![*s], &count))
                .collect();
            assert_eq!(answering.len(), 1);
            assert_eq!(answering[0], bucket_of(&key.to_string(), count));
        }
    }
}

#[test]
fn substitutes() {
    let failure_of = |failed: i32| request("FALHASERV", "", failed);
    assert!(should_become_substitute(&failure_of(2), &vec![0], &3, &0));
    assert!(!should_become_substitute(&failure_of(2), &vec![1], &3, &1));
    assert!(should_become_substitute(&failure_of(0), &vec![1], &3, &1));
    assert!(!should_become_substitute(&failure_of(1), &vec![2], &3, &1));
    assert!(should_become_substitute(&failure_of(-5), &vec![-1], &3, &0));
    assert!(!should_become_substitute(&failure_of(0), &vec![0], &1, &0));
}

#[test]
fn successor_is_the_only_substitute() {
    for count in 1..6 {
        for failed in 0..count {
            let subs: Vec<i32> = (0..count)
                .filter(|s| should_become_substitute(&request("FALHASERV", "", failed), &vec![*s], &count, s))
                .collect();
            if count == 1 {
                assert!(subs.is_empty());
            } else {
                assert_eq!(subs, vec![(failed + 1) % count]);
            }
        }
    }
}

#[test]
fn routing_requests() {
    match handle_request(request("INSERT", "abd", 7), &vec![0], &3, 0) {
        RequestAction::Insert(t) => {
            assert_eq!(t.request_type, ValueTableRequestType::Insert);
            assert_eq!((t.request_info.key.as_str(), t.request_info.value, t.server_num), ("abd", 7, 0));
        }
        other => panic!("unexpected {:?}", other),
    }
    match handle_request(request("SEARCH", "abd", -1), &vec![1], &3, 1) {
        RequestAction::Search { table_request: Some(t), logged } => {
            assert_eq!(t.request_type, ValueTableRequestType::Search);
            assert_eq!((t.request_info.key.as_str(), t.server_num), ("abd", 1));
            assert_eq!(logged.key, "abd");
        }
        other => panic!("unexpected {:?}", other),
    }
    match handle_request(request("SEARCH", "abd", -1), &vec![0], &3, 0) {
        RequestAction::Search { table_request: None, logged } => assert_eq!(logged.req_type, "SEARCH"),
        other => panic!("unexpected {:?}", other),
    }
    match handle_request(request("DIE", "", 2), &vec![0], &3, 0) {
        RequestAction::Invalid(r) => assert_eq!(r.req_type, "DIE"),
        other => panic!("unexpected {:?}", other),
    }
}

#[test]
fn outgoing_messages_and_heartbeats() {
    let found = ExternalConnectionRequest::search_return(42, "CLIENT_TOPIC_9".to_string());
    assert_eq!(found.request_type, ExternalConnectionRequestType::SearchReturn);
    match found.into_outgoing(3) {
        Outgoing::SearchAnswer { topic, answer } => {
            assert_eq!(topic, "CLIENT_TOPIC_9");
            assert_eq!(answer, SearchReturnInfo { value: 42, return_server: 3 });
        }
        other => panic!("unexpected {:?}", other),
    }
    let dump = ExternalConnectionRequest::dump_contents("{\"payload\":{}}".to_string(), restart_server_topic(4));
    assert_eq!((dump.value, dump.return_topic.as_str()), (-1, "RESTART_SERVER_4"));
    match dump.into_outgoing(4) {
        Outgoing::Text { topic, payload } => {
            assert_eq!(topic, "RESTART_SERVER_4");
            assert_eq!(payload, "{\"payload\":{}}");
        }
        other => panic!("unexpected {:?}", other),
    }
    let h = heartbeat_info(3, 1725029869);
    assert_eq!((h.server_number, h.timestamp.as_str()), (3, "1725029869"));
    for secs in [0u64, 9, 10, 1725029869, u64::MAX] {
        assert_eq!(heartbeat_info(1, secs).timestamp.parse::<u64>(), Ok(secs));
    }
}

#[test]
fn no_remainder_without_responsibilities() {
    let r = request("SEARCH", "abd", -1);
    assert!(!is_this_node_search_responsability(&r, &vec![], &0));
    assert!(!should_become_substitute(&request("FALHASERV", "", 4), &vec![], &0, &1));
    assert!(!should_become_substitute(&request("FALHASERV", "", 1), &vec![0, 2], &0, &1));
    assert!(!should_become_substitute(&request("FALHASERV", "", i32::MAX), &vec![0], &3, &i32::MAX));
}

#[test]
fn routing_without_servers() {
    match handle_request(request("INSERT", "k", 3), &vec![0], &0, 0) {
        RequestAction::Insert(t) => assert_eq!((t.request_info.key.as_str(), t.request_info.value), ("k", 3)),
        other => panic!("unexpected {:?}", other),
    }
    match handle_request(request("SEARCH", "k", -1), &vec![], &0, 0) {
        RequestAction::Search { table_request: None, logged } => assert_eq!(logged.key, "k"),
        other => panic!("unexpected {:?}", other),
    }
    match handle_request(request("NOVOSERV", "", 5), &vec![0], &0, 0) {
        RequestAction::Invalid(r) => assert_eq!(r.req_type, "NOVOSERV"),
        other => panic!("unexpected {:?}", other),
    }
}

#[test]
fn order_does_not_change_the_answer() {
    for count in 1..7 {
        for s in 0..count {
            let a = is_this_node_search_responsability(&request("SEARCH", "chave", -1), &vec![s, count + 1], &count);
            let b = is_this_node_search_responsability(&request("SEARCH", "evahc", -1), &vec![count + 1, s], &count);
            assert_eq!(a, b);
        }
    }
    assert_eq!(key_char_sum(&"inf1406".to_string()), key_char_sum(&"6041fni".to_string()));
}
