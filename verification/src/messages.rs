use vstd::prelude::*;

verus! {

/// A request sent by a client (or by the monitor) on the requests topic.
///
/// `req_type` names the operation (`INSERT`, `SEARCH`, `FALHASERV`,
/// `NOVOSERV` or `DIE`); `value` is the value to insert, or the number of a
/// failed server; `return_topic` is where a search answer goes.
#[derive(Debug)]
pub struct RequestInfo {
    pub req_type: String,
    pub key: String,
    pub value: i32,
    pub return_topic: String,
    pub last_seen: i32,
}

impl Clone for RequestInfo {
    fn clone(&self) -> (r: Self)
        ensures
            r == *self,
    {
        RequestInfo {
            req_type: self.req_type.clone(),
            key: self.key.clone(),
            value: self.value,
            return_topic: self.return_topic.clone(),
            last_seen: self.last_seen,
        }
    }
}

impl Default for RequestInfo {
    fn default() -> (r: Self)
        ensures
            r.req_type@ == Seq::<char>::empty(),
            r.key@ == Seq::<char>::empty(),
            r.value == 0,
            r.return_topic@ == Seq::<char>::empty(),
            r.last_seen == 0,
    {
        RequestInfo {
            req_type: String::new(),
            key: String::new(),
            value: 0,
            return_topic: String::new(),
            last_seen: 0,
        }
    }
}

/// The operations a request can name.
#[derive(Debug, Clone, Copy, PartialEq, Eq, Structural)]
pub enum RequestKind {
    Insert,
    Search,
    ServerFailure,
    NewServer,
    Die,
}

/// The operation that a request type names, if it names one.
pub open spec fn request_kind(t: Seq<char>) -> Option<RequestKind> {
    if t == "INSERT"@ {
        Some(RequestKind::Insert)
    } else if t == "SEARCH"@ {
        Some(RequestKind::Search)
    } else if t == "FALHASERV"@ {
        Some(RequestKind::ServerFailure)
    } else if t == "NOVOSERV"@ {
        Some(RequestKind::NewServer)
    } else if t == "DIE"@ {
        Some(RequestKind::Die)
    } else {
        None
    }
}

impl RequestKind {
    /// The request type text of this operation.
    pub open spec fn spec_text(self) -> Seq<char> {
        match self {
            RequestKind::Insert => "INSERT"@,
            RequestKind::Search => "SEARCH"@,
            RequestKind::ServerFailure => "FALHASERV"@,
            RequestKind::NewServer => "NOVOSERV"@,
            RequestKind::Die => "DIE"@,
        }
    }

    /// The request type text of this operation.
    pub fn text(self) -> (s: String)
        ensures
            s@ == self.spec_text(),
    {
        match self {
            RequestKind::Insert => String::from_str("INSERT"),
            RequestKind::Search => String::from_str("SEARCH"),
            RequestKind::ServerFailure => String::from_str("FALHASERV"),
            RequestKind::NewServer => String::from_str("NOVOSERV"),
            RequestKind::Die => String::from_str("DIE"),
        }
    }

    /// The operation named by `req_type`, or `None` for any other text.
    pub fn parse(req_type: &String) -> (k: Option<RequestKind>)
        ensures
            k == request_kind(req_type@),
    {
        if *req_type == String::from_str("INSERT") {
            Some(RequestKind::Insert)
        } else if *req_type == String::from_str("SEARCH") {
            Some(RequestKind::Search)
        } else if *req_type == String::from_str("FALHASERV") {
            Some(RequestKind::ServerFailure)
        } else if *req_type == String::from_str("NOVOSERV") {
            Some(RequestKind::NewServer)
        } else if *req_type == String::from_str("DIE") {
            Some(RequestKind::Die)
        } else {
            None
        }
    }
}

/// Each operation's text names that operation and no other: parsing the
/// text of an operation gives the operation back, and the texts are the
/// ones the servers and clients exchange.
pub proof fn lemma_request_kind_texts(k: RequestKind)
    ensures
        request_kind(k.spec_text()) == Some(k),
        k == RequestKind::Insert ==> k.spec_text() == "INSERT"@,
        k == RequestKind::Search ==> k.spec_text() == "SEARCH"@,
        k == RequestKind::ServerFailure ==> k.spec_text() == "FALHASERV"@,
        k == RequestKind::NewServer ==> k.spec_text() == "NOVOSERV"@,
        k == RequestKind::Die ==> k.spec_text() == "DIE"@,
{
    reveal_strlit("INSERT");
    reveal_strlit("SEARCH");
    reveal_strlit("FALHASERV");
    reveal_strlit("NOVOSERV");
    reveal_strlit("DIE");
    assert("SEARCH"@[0] != "INSERT"@[0]);
    assert("FALHASERV"@[0] != "INSERT"@[0] && "FALHASERV"@[0] != "SEARCH"@[0]);
    assert("NOVOSERV"@[0] != "INSERT"@[0] && "NOVOSERV"@[0] != "SEARCH"@[0] && "NOVOSERV"@[0]
        != "FALHASERV"@[0]);
    assert("DIE"@[0] != "INSERT"@[0] && "DIE"@[0] != "SEARCH"@[0] && "DIE"@[0] != "FALHASERV"@[0]
        && "DIE"@[0] != "NOVOSERV"@[0]);
}

/// The answer a server sends to a client's search: the value found and the
/// number of the server that found it.
#[derive(Debug, Clone, Copy, PartialEq, Eq, Structural)]
pub struct SearchReturnInfo {
    pub value: i32,
    pub return_server: i32,
}

/// A server's periodic sign of life: its number and the time, in seconds
/// since the Unix epoch, written in decimal.
#[derive(Debug)]
pub struct HeartbeatInfo {
    pub server_number: i32,
    pub timestamp: String,
}

impl Clone for HeartbeatInfo {
    fn clone(&self) -> (r: Self)
        ensures
            r == *self,
    {
        HeartbeatInfo { server_number: self.server_number, timestamp: self.timestamp.clone() }
    }
}

impl Default for HeartbeatInfo {
    fn default() -> (h: Self)
        ensures
            h.server_number == 0,
            h.timestamp@ == Seq::<char>::empty(),
    {
        HeartbeatInfo { server_number: 0, timestamp: String::new() }
    }
}

/// Every key and value that a server holds, in the order in which the keys
/// were first inserted.
#[derive(Debug)]
pub struct ContentDumpInfo {
    pub payload: Vec<(String, i32)>,
}

impl Default for ContentDumpInfo {
    fn default() -> (d: Self)
        ensures
            d.payload@ == Seq::<(String, i32)>::empty(),
    {
        ContentDumpInfo { payload: Vec::new() }
    }
}

impl Clone for ContentDumpInfo {
    fn clone(&self) -> (d: Self)
        ensures
            d.payload@ == self.payload@,
    {
        let mut payload: Vec<(String, i32)> = Vec::new();
        let mut i: usize = 0;
        while i < self.payload.len()
            invariant
                0 <= i <= self.payload.len(),
                payload@ == self.payload@.take(i as int),
            decreases self.payload.len() - i,
        {
            let entry = (self.payload[i].0.clone(), self.payload[i].1);
            payload.push(entry);
            proof {
                assert(payload@ =~= self.payload@.take(i + 1));
            }
            i = i + 1;
        }
        proof {
            assert(self.payload@.take(self.payload@.len() as int) =~= self.payload@);
        }
        ContentDumpInfo { payload }
    }
}

impl ContentDumpInfo {
    /// The keys and values of the dump, as text and integer.
    pub open spec fn entries(&self) -> Seq<(Seq<char>, i32)> {
        self.payload@.map_values(|e: (String, i32)| (e.0@, e.1))
    }
}

} // verus!
