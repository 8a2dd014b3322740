use vstd::prelude::*;
use vstd::hash_map::HashMapWithView;

use crate::messages::HeartbeatInfo;

verus! {

broadcast use vstd::std_specs::hash::group_hash_axioms;

/// What the monitor's heartbeat table is asked to do.
#[derive(Debug, Clone, Copy, PartialEq, Eq, Structural)]
pub enum ValueTableRequestType {
    /// Record a heartbeat.
    Insert,
    /// Look at the table (it stays as it is).
    Search,
}

/// A request to the monitor's heartbeat table; a search for dead servers
/// carries no heartbeat.
#[derive(Debug)]
pub struct ValueTableRequest {
    pub heartbeat_info: Option<HeartbeatInfo>,
    pub request_type: ValueTableRequestType,
}

/// The last heartbeat time that the monitor received from each server.
pub struct HeartbeatTable {
    last_heartbeats: HashMapWithView<i32, String>,
}

impl View for HeartbeatTable {
    type V = Map<i32, Seq<char>>;

    closed spec fn view(&self) -> Map<i32, Seq<char>> {
        self.last_heartbeats@.map_values(|t: String| t@)
    }
}

/// The heartbeat table after a request: a heartbeat that is recorded
/// replaces the time held for its server; a search, or an insert without a
/// heartbeat, changes nothing.
pub open spec fn heartbeats_after(
    m: Map<i32, Seq<char>>,
    kind: ValueTableRequestType,
    heartbeat: Option<HeartbeatInfo>,
) -> Map<i32, Seq<char>> {
    match (kind, heartbeat) {
        (ValueTableRequestType::Insert, Some(h)) => m.insert(h.server_number, h.timestamp@),
        _ => m,
    }
}

impl HeartbeatTable {
    /// A table with no heartbeat.
    pub fn new() -> (t: Self)
        ensures
            t@ == Map::<i32, Seq<char>>::empty(),
    {
        let t = HeartbeatTable { last_heartbeats: HashMapWithView::new() };
        assert(t@ =~= Map::<i32, Seq<char>>::empty());
        t
    }

    /// Serves one request.
    pub fn handle(&mut self, request: ValueTableRequest)
        ensures
            final(self)@ == heartbeats_after(old(self)@, request.request_type, request.heartbeat_info),
    {
        match (request.request_type, request.heartbeat_info) {
            (ValueTableRequestType::Insert, Some(h)) => {
                let ghost view = h.timestamp@;
                self.last_heartbeats.insert(h.server_number, h.timestamp);
                assert(self@ =~= old(self)@.insert(h.server_number, view));
            },
            _ => {},
        }
    }

    /// The last heartbeat time received from `server_number`, if any.
    pub fn last_heartbeat(&self, server_number: i32) -> (t: Option<String>)
        ensures
            match t {
                Some(s) => self@.contains_key(server_number) && s@ == self@[server_number],
                None => !self@.contains_key(server_number),
            },
    {
        match self.last_heartbeats.get(&server_number) {
            Some(s) => Some(s.clone()),
            None => None,
        }
    }
}

/// After a heartbeat of a server is recorded, its last heartbeat time is
/// that heartbeat's, and every other server's is unchanged.
pub proof fn lemma_last_heartbeat_is_latest(m: Map<i32, Seq<char>>, h: HeartbeatInfo, other: i32)
    ensures
        heartbeats_after(m, ValueTableRequestType::Insert, Some(h))[h.server_number]
            == h.timestamp@,
        other != h.server_number ==> (heartbeats_after(
            m,
            ValueTableRequestType::Insert,
            Some(h),
        ).contains_key(other) == m.contains_key(other) && heartbeats_after(
            m,
            ValueTableRequestType::Insert,
            Some(h),
        )[other] == m[other]),
{
}

/// A search for dead servers leaves the heartbeat table as it was.
pub proof fn lemma_search_keeps_heartbeats(m: Map<i32, Seq<char>>, heartbeat: Option<HeartbeatInfo>)
    ensures
        heartbeats_after(m, ValueTableRequestType::Search, heartbeat) == m,
{
}

} // verus!
