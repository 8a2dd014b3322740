use vstd::prelude::*;

use crate::messages::{HeartbeatInfo, SearchReturnInfo};
use crate::text::{decimal, decimal_value, lemma_decimal_parses_back, u64_to_decimal};
use crate::values_table::{ExternalConnectionRequest, ExternalConnectionRequestType};

verus! {

/// A message that a server's external communicator publishes.
#[derive(Debug)]
pub enum Outgoing {
    /// A search answer, to be written as JSON.
    SearchAnswer { topic: String, answer: SearchReturnInfo },
    /// Text that is published as it is.
    Text { topic: String, payload: String },
}

impl ExternalConnectionRequest {
    /// What server `server_num` publishes for this request: a search answer
    /// carries the value found and the server's number; a dump carries its
    /// text. Both go to the request's return topic.
    pub fn into_outgoing(self, server_num: i32) -> (o: Outgoing)
        ensures
            self.request_type == ExternalConnectionRequestType::SearchReturn ==> o == (Outgoing::SearchAnswer {
                topic: self.return_topic,
                answer: SearchReturnInfo { value: self.value, return_server: server_num },
            }),
            self.request_type == ExternalConnectionRequestType::DumpContents ==> o == (Outgoing::Text {
                topic: self.return_topic,
                payload: self.value_str,
            }),
    {
        match self.request_type {
            ExternalConnectionRequestType::SearchReturn => Outgoing::SearchAnswer {
                topic: self.return_topic,
                answer: SearchReturnInfo { value: self.value, return_server: server_num },
            },
            ExternalConnectionRequestType::DumpContents => Outgoing::Text {
                topic: self.return_topic,
                payload: self.value_str,
            },
        }
    }
}

/// The heartbeat of server `server_number` at `secs` seconds after the Unix
/// epoch; the time is written in decimal.
pub fn heartbeat_info(server_number: i32, secs: u64) -> (h: HeartbeatInfo)
    ensures
        h.server_number == server_number,
        h.timestamp@ == decimal(secs as int),
        decimal_value(h.timestamp@) == secs,
{
    proof {
        lemma_decimal_parses_back(secs as int);
    }
    HeartbeatInfo { server_number, timestamp: u64_to_decimal(secs) }
}

} // verus!
