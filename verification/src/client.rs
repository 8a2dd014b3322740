use vstd::prelude::*;

use crate::messages::{RequestInfo, RequestKind, SearchReturnInfo};

verus! {

/// The request that asks the servers to store `value` under `key`.
pub fn insert_request(key: String, value: i32, return_topic: String) -> (r: RequestInfo)
    ensures
        r.req_type@ == RequestKind::Insert.spec_text(),
        r.key == key,
        r.value == value,
        r.return_topic == return_topic,
        r.last_seen == -1,
{
    RequestInfo { req_type: RequestKind::Insert.text(), key, value, return_topic, last_seen: -1 }
}

/// The request that asks the servers for the value of `key`, to be answered
/// on `return_topic`; its value is `-1`.
pub fn search_request(key: String, return_topic: String) -> (r: RequestInfo)
    ensures
        r.req_type@ == RequestKind::Search.spec_text(),
        r.key == key,
        r.value == -1,
        r.return_topic == return_topic,
        r.last_seen == -1,
{
    RequestInfo { req_type: RequestKind::Search.text(), key, value: -1, return_topic, last_seen: -1 }
}

/// The request that asks server `value` to stop, with an empty key and
/// return topic.
pub fn die_request(value: i32) -> (r: RequestInfo)
    ensures
        r.req_type@ == RequestKind::Die.spec_text(),
        r.key@ == Seq::<char>::empty(),
        r.value == value,
        r.return_topic@ == Seq::<char>::empty(),
        r.last_seen == -1,
{
    RequestInfo {
        req_type: RequestKind::Die.text(),
        key: String::new(),
        value,
        return_topic: String::new(),
        last_seen: -1,
    }
}

/// The outcome of comparing a search answer with what the client expected.
#[derive(Debug, Clone, Copy, PartialEq, Eq, Structural)]
pub enum SearchCheck {
    /// Every expectation that was given holds.
    Matches,
    /// The value found is not the one expected.
    ValueMismatch { expected: i32, received: i32 },
    /// The server that answered is not the one expected.
    ServerMismatch { expected: i32, received: i32 },
}

/// The answer a client holds before any answer has come: `-1` for both.
pub fn no_search_answer() -> (r: SearchReturnInfo)
    ensures
        r.value == -1,
        r.return_server == -1,
{
    SearchReturnInfo { value: -1, return_server: -1 }
}

/// The outcome of checking a search answer (`value`, `server`) against the
/// expected value and server; `-1` means that nothing is expected, and the
/// value is checked first.
pub open spec fn search_check(
    expected_value: i32,
    expected_server: i32,
    value: i32,
    server: i32,
) -> SearchCheck {
    if expected_value != -1 && expected_value != value {
        SearchCheck::ValueMismatch { expected: expected_value, received: value }
    } else if expected_server != -1 && expected_server != server {
        SearchCheck::ServerMismatch { expected: expected_server, received: server }
    } else {
        SearchCheck::Matches
    }
}

/// An answer matches exactly when every expectation that was given holds;
/// a mismatch names an expectation that was given and failed, with the
/// value received for it, and a wrong value is reported before a wrong
/// server.
pub proof fn lemma_search_check_reports_failed_expectation(ev: i32, es: i32, v: i32, s: i32)
    ensures
        (search_check(ev, es, v, s) == SearchCheck::Matches) <==> ((ev == -1 || ev == v) && (es
            == -1 || es == s)),
        search_check(ev, es, v, s) matches SearchCheck::ValueMismatch { expected, received } ==> (
        expected == ev && received == v && ev != -1 && ev != v),
        search_check(ev, es, v, s) matches SearchCheck::ServerMismatch { expected, received } ==> (
        expected == es && received == s && es != -1 && es != s && (ev == -1 || ev == v)),
        (ev != -1 && ev != v) ==> search_check(ev, es, v, s) is ValueMismatch,
{
}

/// Checks a search answer against the expected value and the expected
/// answering server; `-1` means that nothing is expected. The value is
/// checked first.
pub fn check_search_result(
    expected_search_value: i32,
    expected_return_server: i32,
    received: &SearchReturnInfo,
) -> (c: SearchCheck)
    ensures
        c == search_check(
            expected_search_value,
            expected_return_server,
            received.value,
            received.return_server,
        ),
{
    if expected_search_value != -1 && expected_search_value != received.value {
        SearchCheck::ValueMismatch { expected: expected_search_value, received: received.value }
    } else if expected_return_server != -1 && expected_return_server != received.return_server {
        SearchCheck::ServerMismatch {
            expected: expected_return_server,
            received: received.return_server,
        }
    } else {
        SearchCheck::Matches
    }
}

} // verus!
