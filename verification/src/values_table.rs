use vstd::prelude::*;
use vstd::hash_map::StringHashMap;

use crate::messages::{ContentDumpInfo, RequestInfo};
use crate::topics::{restart_server_topic, spec_restart_server_topic};

verus! {

/// What a server's value table is asked to do.
#[derive(Debug, Clone, Copy, PartialEq, Eq, Structural)]
pub enum ValueTableRequestType {
    Insert,
    Search,
    DumpContents,
}

/// A request to a server's value table, with the client request it serves
/// and the number of the server.
#[derive(Debug)]
pub struct ValueTableRequest {
    pub request_type: ValueTableRequestType,
    pub request_info: RequestInfo,
    pub server_num: i32,
}

/// What a server sends out on behalf of its value table.
#[derive(Debug, Clone, Copy, PartialEq, Eq, Structural)]
pub enum ExternalConnectionRequestType {
    SearchReturn,
    DumpContents,
}

/// A message for a server's external communicator: the answer to a search
/// (`value`), or a dump of the server's contents (`value_str`), and the
/// topic it goes to.
#[derive(Debug)]
pub struct ExternalConnectionRequest {
    pub request_type: ExternalConnectionRequestType,
    pub value: i32,
    pub value_str: String,
    pub return_topic: String,
}

impl ExternalConnectionRequest {
    /// The answer to a search that found `value`, for `return_topic`.
    pub fn search_return(value: i32, return_topic: String) -> (r: Self)
        ensures
            r.request_type == ExternalConnectionRequestType::SearchReturn,
            r.value == value,
            r.value_str@ == Seq::<char>::empty(),
            r.return_topic == return_topic,
    {
        ExternalConnectionRequest {
            request_type: ExternalConnectionRequestType::SearchReturn,
            value,
            value_str: String::new(),
            return_topic,
        }
    }

    /// A dump of a server's contents, already written as text, for
    /// `return_topic`; its value is `-1`.
    pub fn dump_contents(serialized: String, return_topic: String) -> (r: Self)
        ensures
            r.request_type == ExternalConnectionRequestType::DumpContents,
            r.value == -1,
            r.value_str == serialized,
            r.return_topic == return_topic,
    {
        ExternalConnectionRequest {
            request_type: ExternalConnectionRequestType::DumpContents,
            value: -1,
            value_str: serialized,
            return_topic,
        }
    }
}

/// What the value table hands back after a request.
#[derive(Debug)]
pub enum TableReply {
    /// Nothing to send (an insert).
    Stored,
    /// A search for a key that the table does not hold.
    NotFound,
    /// A search answer for the external communicator.
    Found(ExternalConnectionRequest),
    /// The table's contents, to be written out and sent to `return_topic`.
    Dump { contents: ContentDumpInfo, return_topic: String },
}

/// The value held for `key` in `m`, if any.
pub open spec fn lookup(m: Map<Seq<char>, i32>, key: Seq<char>) -> Option<i32> {
    if m.contains_key(key) {
        Some(m[key])
    } else {
        None
    }
}

/// The table's contents after a request of kind `kind` for `key` and
/// `value`: an insert sets the key's value, the other requests only read.
pub open spec fn table_after(
    m: Map<Seq<char>, i32>,
    kind: ValueTableRequestType,
    key: Seq<char>,
    value: i32,
) -> Map<Seq<char>, i32> {
    match kind {
        ValueTableRequestType::Insert => m.insert(key, value),
        _ => m,
    }
}

/// `entries` lists every key of `m` exactly once, each with its value.
pub open spec fn lists_exactly(entries: Seq<(Seq<char>, i32)>, m: Map<Seq<char>, i32>) -> bool {
    &&& forall|i: int, j: int|
        0 <= i < j < entries.len() ==> #[trigger] entries[i].0 != #[trigger] entries[j].0
    &&& forall|i: int|
        0 <= i < entries.len() ==> m.contains_key(#[trigger] entries[i].0) && m[entries[i].0]
            == entries[i].1
    &&& forall|k: Seq<char>|
        m.contains_key(k) ==> exists|i: int| 0 <= i < entries.len() && #[trigger] entries[i].0 == k
}

/// The table that results from inserting the entries of `entries` in
/// order into an empty table.
pub open spec fn map_of_entries(entries: Seq<(Seq<char>, i32)>) -> Map<Seq<char>, i32>
    decreases entries.len(),
{
    if entries.len() == 0 {
        Map::empty()
    } else {
        map_of_entries(entries.drop_last()).insert(entries.last().0, entries.last().1)
    }
}

proof fn lemma_map_of_entries_keys(entries: Seq<(Seq<char>, i32)>, k: Seq<char>)
    ensures
        map_of_entries(entries).contains_key(k) <==> exists|i: int|
            0 <= i < entries.len() && #[trigger] entries[i].0 == k,
    decreases entries.len(),
{
    if entries.len() > 0 {
        let rest = entries.drop_last();
        lemma_map_of_entries_keys(rest, k);
        if map_of_entries(entries).contains_key(k) && k != entries.last().0 {
            let i = choose|i: int| 0 <= i < rest.len() && #[trigger] rest[i].0 == k;
            assert(entries[i] == rest[i]);
        }
        if exists|i: int| 0 <= i < entries.len() && #[trigger] entries[i].0 == k {
            let i = choose|i: int| 0 <= i < entries.len() && #[trigger] entries[i].0 == k;
            if i < entries.len() - 1 {
                assert(rest[i] == entries[i]);
            }
        }
    }
}

proof fn lemma_map_of_entries_values(entries: Seq<(Seq<char>, i32)>, i: int)
    requires
        0 <= i < entries.len(),
        forall|a: int, b: int|
            0 <= a < b < entries.len() ==> #[trigger] entries[a].0 != #[trigger] entries[b].0,
    ensures
        map_of_entries(entries).contains_key(entries[i].0),
        map_of_entries(entries)[entries[i].0] == entries[i].1,
    decreases entries.len(),
{
    let rest = entries.drop_last();
    if i < entries.len() - 1 {
        assert(rest[i] == entries[i]);
        assert forall|a: int, b: int| 0 <= a < b < rest.len() implies #[trigger] rest[a].0
            != #[trigger] rest[b].0 by {
            assert(rest[a] == entries[a] && rest[b] == entries[b]);
        }
        lemma_map_of_entries_values(rest, i);
        assert(entries[i].0 != entries[entries.len() - 1].0);
    }
}

/// Restoring a dump gives back the dumped table: inserting, in order, the
/// entries of a listing of every key of `m` (each once, with its value)
/// into an empty table yields `m`.
pub proof fn lemma_restore_after_dump(entries: Seq<(Seq<char>, i32)>, m: Map<Seq<char>, i32>)
    requires
        lists_exactly(entries, m),
    ensures
        map_of_entries(entries) == m,
{
    assert forall|k: Seq<char>| #[trigger] map_of_entries(entries).contains_key(k) <==> m.contains_key(k) by {
        lemma_map_of_entries_keys(entries, k);
    }
    assert forall|k: Seq<char>| #[trigger] map_of_entries(entries).contains_key(k) implies map_of_entries(entries)[k] == m[k] by {
        lemma_map_of_entries_keys(entries, k);
        let i = choose|i: int| 0 <= i < entries.len() && #[trigger] entries[i].0 == k;
        lemma_map_of_entries_values(entries, i);
    }
    assert(map_of_entries(entries) =~= m);
}

/// A search for a key right after an insert of that key finds the inserted
/// value.
pub proof fn lemma_search_finds_inserted(m: Map<Seq<char>, i32>, key: Seq<char>, value: i32)
    ensures
        lookup(table_after(m, ValueTableRequestType::Insert, key, value), key) == Some(value),
{
}

/// An insert of one key leaves what a search finds for every other key
/// unchanged.
pub proof fn lemma_insert_keeps_other_keys(
    m: Map<Seq<char>, i32>,
    key: Seq<char>,
    value: i32,
    other: Seq<char>,
)
    requires
        other != key,
    ensures
        lookup(table_after(m, ValueTableRequestType::Insert, key, value), other) == lookup(
            m,
            other,
        ),
{
}

/// Searches and dumps leave the table as it was.
pub proof fn lemma_reads_keep_table(
    m: Map<Seq<char>, i32>,
    kind: ValueTableRequestType,
    key: Seq<char>,
    value: i32,
)
    requires
        kind != ValueTableRequestType::Insert,
    ensures
        table_after(m, kind, key, value) == m,
{
}

/// The key order after a request: an insert of a key not yet held adds
/// it at the end.
pub open spec fn order_after(
    m: Map<Seq<char>, i32>,
    order: Seq<Seq<char>>,
    kind: ValueTableRequestType,
    key: Seq<char>,
) -> Seq<Seq<char>> {
    if kind == ValueTableRequestType::Insert && !m.contains_key(key) {
        order.push(key)
    } else {
        order
    }
}

/// The table and its key order after one request.
pub open spec fn step_state(
    s: (Map<Seq<char>, i32>, Seq<Seq<char>>),
    request: ValueTableRequest,
) -> (Map<Seq<char>, i32>, Seq<Seq<char>>) {
    (
        table_after(s.0, request.request_type, request.request_info.key@, request.request_info.value),
        order_after(s.0, s.1, request.request_type, request.request_info.key@),
    )
}

/// The table and its key order after a run of requests, served in order.
pub open spec fn run_state(
    s: (Map<Seq<char>, i32>, Seq<Seq<char>>),
    requests: Seq<ValueTableRequest>,
) -> (Map<Seq<char>, i32>, Seq<Seq<char>>)
    decreases requests.len(),
{
    if requests.len() == 0 {
        s
    } else {
        step_state(run_state(s, requests.drop_last()), requests.last())
    }
}

/// `reply` is the table's answer to `request` when it holds `m` with key
/// order `order`: an insert is stored; a search answers with the key's value
/// on the request's return topic, or reports that the key is not held; a
/// dump lists every key once with its value, in key order, for the
/// server's restart topic.
pub open spec fn answers(
    m: Map<Seq<char>, i32>,
    order: Seq<Seq<char>>,
    request: ValueTableRequest,
    reply: TableReply,
) -> bool {
    match request.request_type {
        ValueTableRequestType::Insert => reply is Stored,
        ValueTableRequestType::Search => match lookup(m, request.request_info.key@) {
            Some(v) => reply matches TableReply::Found(r) && r.request_type
                == ExternalConnectionRequestType::SearchReturn && r.value == v && r.value_str@
                == Seq::<char>::empty() && r.return_topic == request.request_info.return_topic,
            None => reply is NotFound,
        },
        ValueTableRequestType::DumpContents => reply matches TableReply::Dump {
            contents,
            return_topic,
        } && lists_exactly(contents.entries(), m) && contents.entries().map_values(
            |e: (Seq<char>, i32)| e.0,
        ) == order && return_topic@ == spec_restart_server_topic(request.server_num as int),
    }
}

/// A reply that the server sends on: a search answer or a dump.
pub open spec fn is_sent(reply: TableReply) -> bool {
    reply is Found || reply is Dump
}

/// The value that the last insert of `key` in `requests` stored, if any.
pub open spec fn last_insert_of(requests: Seq<ValueTableRequest>, key: Seq<char>) -> Option<i32>
    decreases requests.len(),
{
    if requests.len() == 0 {
        None
    } else if requests.last().request_type == ValueTableRequestType::Insert
        && requests.last().request_info.key@ == key {
        Some(requests.last().request_info.value)
    } else {
        last_insert_of(requests.drop_last(), key)
    }
}

/// After a run of requests, a key holds the value of its last insert in the
/// run, later inserts overwriting earlier ones; a key not inserted in the
/// run keeps what it held before.
pub proof fn lemma_run_holds_last_insert(
    s: (Map<Seq<char>, i32>, Seq<Seq<char>>),
    requests: Seq<ValueTableRequest>,
    key: Seq<char>,
)
    ensures
        lookup(run_state(s, requests).0, key) == match last_insert_of(requests, key) {
            Some(v) => Some(v),
            None => lookup(s.0, key),
        },
    decreases requests.len(),
{
    if requests.len() > 0 {
        lemma_run_holds_last_insert(s, requests.drop_last(), key);
    }
}

/// The replies that are sent on are exactly the dumps and the searches for
/// a key the table holds; inserts and searches for a missing key send
/// nothing.
pub proof fn lemma_sends_exactly(
    m: Map<Seq<char>, i32>,
    order: Seq<Seq<char>>,
    request: ValueTableRequest,
    reply: TableReply,
)
    requires
        answers(m, order, request, reply),
    ensures
        is_sent(reply) <==> (request.request_type == ValueTableRequestType::DumpContents || (
        request.request_type == ValueTableRequestType::Search && m.contains_key(
            request.request_info.key@,
        ))),
{
}

proof fn lemma_run_append(
    s: (Map<Seq<char>, i32>, Seq<Seq<char>>),
    a: Seq<ValueTableRequest>,
    b: Seq<ValueTableRequest>,
)
    ensures
        run_state(s, a + b) == run_state(run_state(s, a), b),
    decreases b.len(),
{
    if b.len() == 0 {
        assert(a + b =~= a);
    } else {
        lemma_run_append(s, a, b.drop_last());
        assert((a + b).drop_last() =~= a + b.drop_last());
        assert((a + b).last() == b.last());
    }
}

/// A search or a dump changes nothing that later requests see: with it
/// removed from a run, every later request meets the same table and key
/// order, and so gets the same reply.
pub proof fn lemma_reads_do_not_change_later(
    s: (Map<Seq<char>, i32>, Seq<Seq<char>>),
    before: Seq<ValueTableRequest>,
    read: ValueTableRequest,
    after: Seq<ValueTableRequest>,
)
    requires
        read.request_type != ValueTableRequestType::Insert,
    ensures
        forall|j: int|
            0 <= j <= after.len() ==> run_state(s, before.push(read) + #[trigger] after.take(j))
                == run_state(s, before + after.take(j)),
{
    assert forall|j: int| 0 <= j <= after.len() implies run_state(
        s,
        before.push(read) + #[trigger] after.take(j),
    ) == run_state(s, before + after.take(j)) by {
        lemma_run_append(s, before.push(read), after.take(j));
        lemma_run_append(s, before, after.take(j));
        assert(before.push(read).drop_last() =~= before);
    }
}

/// The keys and values that a server holds.
pub struct ValueTable {
    values: StringHashMap<i32>,
    keys: Vec<String>,
}

impl View for ValueTable {
    type V = Map<Seq<char>, i32>;

    closed spec fn view(&self) -> Map<Seq<char>, i32> {
        self.values@
    }
}

impl ValueTable {
    /// The keys in the order in which they were first inserted.
    pub closed spec fn key_order(&self) -> Seq<Seq<char>> {
        self.keys@.map_values(|k: String| k@)
    }

    /// The table is well formed: its key order lists each held key once.
    pub closed spec fn inv(&self) -> bool {
        &&& forall|i: int, j: int|
            0 <= i < j < self.keys@.len() ==> #[trigger] self.keys@[i]@ != #[trigger] self.keys@[j]@
        &&& forall|i: int|
            0 <= i < self.keys@.len() ==> self.values@.contains_key(#[trigger] self.keys@[i]@)
        &&& forall|k: Seq<char>|
            self.values@.contains_key(k) ==> exists|i: int|
                0 <= i < self.keys@.len() && #[trigger] self.keys@[i]@ == k
    }

    /// An empty table.
    pub fn new() -> (t: Self)
        ensures
            t.inv(),
            t@ == Map::<Seq<char>, i32>::empty(),
            t.key_order() == Seq::<Seq<char>>::empty(),
    {
        let t = ValueTable { values: StringHashMap::new(), keys: Vec::new() };
        assert(t.key_order() =~= Seq::<Seq<char>>::empty());
        t
    }

    /// A table holding the dumped entries, inserted in order; the contents
    /// a restarted server starts from.
    pub fn from_contents(contents: ContentDumpInfo) -> (t: Self)
        ensures
            t.inv(),
            t@ == map_of_entries(contents.entries()),
    {
        let mut t = ValueTable::new();
        let mut i: usize = 0;
        while i < contents.payload.len()
            invariant
                t.inv(),
                0 <= i <= contents.payload.len(),
                t@ == map_of_entries(contents.entries().take(i as int)),
            decreases contents.payload.len() - i,
        {
            let key = contents.payload[i].0.clone();
            let value = contents.payload[i].1;
            t.insert(key, value);
            proof {
                let e = contents.entries();
                assert(e.take(i + 1).drop_last() =~= e.take(i as int));
                assert(e.take(i + 1).last() == e[i as int]);
            }
            i = i + 1;
        }
        proof {
            assert(contents.entries().take(contents.payload@.len() as int) =~= contents.entries());
        }
        t
    }

    /// The value held for `key`, if any.
    pub fn get(&self, key: &String) -> (v: Option<i32>)
        ensures
            v == lookup(self@, key@),
    {
        match self.values.get(key.as_str()) {
            Some(v) => Some(*v),
            None => None,
        }
    }

    /// Sets the value of `key` to `value`.
    pub fn insert(&mut self, key: String, value: i32)
        requires
            old(self).inv(),
        ensures
            final(self).inv(),
            final(self)@ == old(self)@.insert(key@, value),
            final(self).key_order() == if old(self)@.contains_key(key@) {
                old(self).key_order()
            } else {
                old(self).key_order().push(key@)
            },
    {
        if !self.values.contains_key(key.as_str()) {
            self.keys.push(key.clone());
        }
        self.values.insert(key, value);
        proof {
            if old(self)@.contains_key(key@) {
                assert(self.key_order() =~= old(self).key_order());
            } else {
                assert(self.key_order() =~= old(self).key_order().push(key@));
            }
            let n = self.keys@.len();
            assert forall|k: Seq<char>| self.values@.contains_key(k) implies exists|i: int|
                0 <= i < self.keys@.len() && #[trigger] self.keys@[i]@ == k by {
                if k != key@ {
                    let i = choose|i: int| 0 <= i < old(self).keys@.len() && #[trigger] old(self).keys@[i]@ == k;
                    assert(self.keys@[i] == old(self).keys@[i]);
                } else if old(self).values@.contains_key(k) {
                    let i = choose|i: int| 0 <= i < old(self).keys@.len() && #[trigger] old(self).keys@[i]@ == k;
                    assert(self.keys@[i] == old(self).keys@[i]);
                } else {
                    assert(self.keys@[n - 1]@ == k);
                }
            }
        }
    }

    /// Every key and value held, each key once, in the order in which the
    /// keys were first inserted.
    pub fn contents(&self) -> (dump: ContentDumpInfo)
        requires
            self.inv(),
        ensures
            lists_exactly(dump.entries(), self@),
            dump.entries().map_values(|e: (Seq<char>, i32)| e.0) == self.key_order(),
    {
        let mut payload: Vec<(String, i32)> = Vec::new();
        let mut i: usize = 0;
        while i < self.keys.len()
            invariant
                self.inv(),
                0 <= i <= self.keys.len(),
                payload@.len() == i,
                forall|j: int|
                    0 <= j < i ==> (#[trigger] payload@[j]).0@ == self.keys@[j]@ && payload@[j].1
                        == self.values@[self.keys@[j]@],
            decreases self.keys.len() - i,
        {
            let key = &self.keys[i];
            assert(self.values@.contains_key(self.keys@[i as int]@));
            let value = match self.values.get(key.as_str()) {
                Some(v) => *v,
                None => 0,
            };
            payload.push((key.clone(), value));
            i = i + 1;
        }
        let dump = ContentDumpInfo { payload };
        proof {
            let e = dump.entries();
            assert(e.len() == self.keys@.len());
            assert forall|j: int| 0 <= j < e.len() implies #[trigger] e[j].0 == self.keys@[j]@ && e[j].1 == self.values@[self.keys@[j]@] by {
                assert(e[j] == (payload@[j].0@, payload@[j].1));
            }
            assert forall|k: Seq<char>| self@.contains_key(k) implies exists|j: int| 0 <= j < e.len() && #[trigger] e[j].0 == k by {
                let j = choose|j: int| 0 <= j < self.keys@.len() && #[trigger] self.keys@[j]@ == k;
                assert(e[j].0 == k);
            }
            assert(e.map_values(|x: (Seq<char>, i32)| x.0) =~= self.key_order());
        }
        dump
    }

    /// Serves one request: an insert sets the key's value; a search answers
    /// with the key's value on the request's return topic, or reports that
    /// the key is not held; a dump lists the table's contents for the
    /// server's restart topic. Only an insert changes the table.
    pub fn handle(&mut self, request: ValueTableRequest) -> (reply: TableReply)
        requires
            old(self).inv(),
        ensures
            final(self).inv(),
            (final(self)@, final(self).key_order()) == step_state(
                (old(self)@, old(self).key_order()),
                request,
            ),
            answers(old(self)@, old(self).key_order(), request, reply),
    {
        match request.request_type {
            ValueTableRequestType::Insert => {
                self.insert(request.request_info.key, request.request_info.value);
                TableReply::Stored
            },
            ValueTableRequestType::Search => {
                match self.get(&request.request_info.key) {
                    Some(v) => TableReply::Found(
                        ExternalConnectionRequest::search_return(v, request.request_info.return_topic),
                    ),
                    None => TableReply::NotFound,
                }
            },
            ValueTableRequestType::DumpContents => {
                let contents = self.contents();
                TableReply::Dump { contents, return_topic: restart_server_topic(request.server_num) }
            },
        }
    }

    /// Serves a run of requests in order, as a server's table thread does
    /// with the requests it receives; each reply is the one `handle` gives
    /// in the state that the earlier requests left.
    pub fn handle_all(&mut self, requests: Vec<ValueTableRequest>) -> (replies: Vec<TableReply>)
        requires
            old(self).inv(),
        ensures
            final(self).inv(),
            (final(self)@, final(self).key_order()) == run_state(
                (old(self)@, old(self).key_order()),
                requests@,
            ),
            replies@.len() == requests@.len(),
            forall|j: int|
                0 <= j < requests@.len() ==> {
                    let s = run_state((old(self)@, old(self).key_order()), requests@.take(j));
                    answers(s.0, s.1, #[trigger] requests@[j], replies@[j])
                },
    {
        let ghost start = (self@, self.key_order());
        let ghost all = requests@;
        let mut rest = requests;
        let mut replies: Vec<TableReply> = Vec::new();
        while rest.len() > 0
            invariant
                self.inv(),
                replies@.len() + rest@.len() == all.len(),
                rest@ == all.skip(replies@.len() as int),
                (self@, self.key_order()) == run_state(start, all.take(replies@.len() as int)),
                forall|j: int|
                    0 <= j < replies@.len() ==> {
                        let s = run_state(start, all.take(j));
                        answers(s.0, s.1, #[trigger] all[j], replies@[j])
                    },
            decreases rest.len(),
        {
            let n = replies.len();
            let request = rest.remove(0);
            assert(request == all[n as int]);
            let reply = self.handle(request);
            let ghost before = replies@;
            replies.push(reply);
            proof {
                assert(all.take(n + 1).drop_last() =~= all.take(n as int));
                assert(all.take(n + 1).last() == all[n as int]);
                assert(rest@ =~= all.skip(n + 1));
                assert forall|j: int| 0 <= j < replies@.len() implies {
                    let s = run_state(start, all.take(j));
                    answers(s.0, s.1, #[trigger] all[j], replies@[j])
                } by {
                    if j < n {
                        assert(replies@[j] == before[j]);
                    }
                }
            }
        }
        proof {
            assert(all.take(all.len() as int) =~= all);
        }
        replies
    }
}

} // verus!
