use vstd::prelude::*;

use crate::text::{
    decimal, decimal_value, is_canonical_decimal, lemma_decimal_is_canonical, with_decimal_suffix,
};

verus! {

/// The topic on which clients send their requests to the servers.
pub const DFLT_REQ_TOPIC: &'static str = "inf1406-reqs";

/// The topic on which servers send their heartbeats to the monitor.
pub const DFLT_MONITOR_TOPIC: &'static str = "inf1406-mon";

/// The topic on which a client waits for the answers to its searches.
pub open spec fn spec_client_return_topic(client_num: int) -> Seq<char> {
    "CLIENT_TOPIC_"@ + decimal(client_num)
}

/// The topic on which a restarted server receives the contents it held.
pub open spec fn spec_restart_server_topic(server_num: int) -> Seq<char> {
    "RESTART_SERVER_"@ + decimal(server_num)
}

/// The topic on which client `client_num` waits for its search answers:
/// `CLIENT_TOPIC_` followed by the number.
pub fn client_return_topic(client_num: i32) -> (t: String)
    ensures
        t@ == spec_client_return_topic(client_num as int),
{
    with_decimal_suffix("CLIENT_TOPIC_", client_num as i64)
}

/// The topic to which a server dumps its contents when it is restarted:
/// `RESTART_SERVER_` followed by the server's number.
pub fn restart_server_topic(server_num: i32) -> (t: String)
    ensures
        t@ == spec_restart_server_topic(server_num as int),
{
    with_decimal_suffix("RESTART_SERVER_", server_num as i64)
}

/// Text that consists of `prefix` followed by the canonical decimal text of
/// `n`.
pub open spec fn names_number(t: Seq<char>, prefix: Seq<char>, n: int) -> bool {
    &&& t.len() > prefix.len()
    &&& t.take(prefix.len() as int) == prefix
    &&& is_canonical_decimal(t.skip(prefix.len() as int))
    &&& decimal_value(t.skip(prefix.len() as int)) == n
}

proof fn lemma_prefixed_decimal(prefix: Seq<char>, n: int)
    ensures
        names_number(prefix + decimal(n), prefix, n),
{
    lemma_decimal_is_canonical(n);
    let t = prefix + decimal(n);
    assert(t.take(prefix.len() as int) =~= prefix);
    assert(t.skip(prefix.len() as int) =~= decimal(n));
}

/// Two texts that name numbers after the same prefix are equal only when
/// the numbers are.
proof fn lemma_named_numbers_differ(t1: Seq<char>, t2: Seq<char>, prefix: Seq<char>, n: int, m: int)
    requires
        names_number(t1, prefix, n),
        names_number(t2, prefix, m),
        n != m,
    ensures
        t1 != t2,
{
}

/// A client's return topic is `CLIENT_TOPIC_` followed by the canonical
/// decimal text of the client's own number; so distinct clients wait on
/// distinct topics.
pub proof fn lemma_client_return_topic_names_client(n: int, m: int)
    ensures
        names_number(spec_client_return_topic(n), "CLIENT_TOPIC_"@, n),
        n != m ==> spec_client_return_topic(n) != spec_client_return_topic(m),
{
    lemma_prefixed_decimal("CLIENT_TOPIC_"@, n);
    lemma_prefixed_decimal("CLIENT_TOPIC_"@, m);
    if n != m {
        lemma_named_numbers_differ(
            spec_client_return_topic(n),
            spec_client_return_topic(m),
            "CLIENT_TOPIC_"@,
            n,
            m,
        );
    }
}

/// A server's restart topic is `RESTART_SERVER_` followed by the canonical
/// decimal text of the server's own number; so distinct servers get
/// distinct restart topics.
pub proof fn lemma_restart_topic_names_server(n: int, m: int)
    ensures
        names_number(spec_restart_server_topic(n), "RESTART_SERVER_"@, n),
        n != m ==> spec_restart_server_topic(n) != spec_restart_server_topic(m),
{
    lemma_prefixed_decimal("RESTART_SERVER_"@, n);
    lemma_prefixed_decimal("RESTART_SERVER_"@, m);
    if n != m {
        lemma_named_numbers_differ(
            spec_restart_server_topic(n),
            spec_restart_server_topic(m),
            "RESTART_SERVER_"@,
            n,
            m,
        );
    }
}

} // verus!
