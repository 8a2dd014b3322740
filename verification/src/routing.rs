use vstd::prelude::*;

use crate::messages::{request_kind, RequestInfo, RequestKind};
use crate::responsibility::{char_sum, is_responsible_for, is_this_node_search_responsability};
use crate::values_table::{ValueTableRequest, ValueTableRequestType};

verus! {

/// What a server does with a request that arrives on the requests topic.
#[derive(Debug)]
pub enum RequestAction {
    /// Store the value: hand this request to the value table.
    Insert(ValueTableRequest),
    /// A search: hand it to the value table when this node answers for the
    /// key, and log the request in any case.
    Search { table_request: Option<ValueTableRequest>, logged: RequestInfo },
    /// A request type that a server does not serve.
    Invalid(RequestInfo),
}

/// Routes a request to server `server_num`, responsible for
/// `node_responsabilities` among `server_count` servers: inserts go to the
/// value table; searches go to it only when this node answers for the key,
/// and are logged; any other request type is invalid.
pub fn handle_request(
    request_info: RequestInfo,
    node_responsabilities: &Vec<i32>,
    server_count: &i32,
    server_num: i32,
) -> (action: RequestAction)
    requires
        request_kind(request_info.req_type@) == Some(RequestKind::Search) ==> char_sum(
            request_info.key@,
        ) <= i32::MAX,
        request_kind(request_info.req_type@) == Some(RequestKind::Search)
            && node_responsabilities@.len() > 0 ==> *server_count != 0,
    ensures
        request_kind(request_info.req_type@) == Some(RequestKind::Insert) ==> action == (RequestAction::Insert(
            ValueTableRequest {
                request_type: ValueTableRequestType::Insert,
                request_info,
                server_num,
            },
        )),
        request_kind(request_info.req_type@) == Some(RequestKind::Search) ==> action == (RequestAction::Search {
            table_request: if is_responsible_for(
                request_info.key@,
                node_responsabilities@,
                *server_count as int,
            ) {
                Some(
                    ValueTableRequest {
                        request_type: ValueTableRequestType::Search,
                        request_info,
                        server_num,
                    },
                )
            } else {
                None
            },
            logged: request_info,
        }),
        request_kind(request_info.req_type@) != Some(RequestKind::Insert) && request_kind(
            request_info.req_type@,
        ) != Some(RequestKind::Search) ==> action == RequestAction::Invalid(request_info),
{
    match RequestKind::parse(&request_info.req_type) {
        Some(RequestKind::Insert) => RequestAction::Insert(
            ValueTableRequest {
                request_type: ValueTableRequestType::Insert,
                request_info,
                server_num,
            },
        ),
        Some(RequestKind::Search) => {
            let responsible = is_this_node_search_responsability(
                &request_info,
                node_responsabilities,
                server_count,
            );
            let logged = request_info.clone();
            let table_request = if responsible {
                Some(
                    ValueTableRequest {
                        request_type: ValueTableRequestType::Search,
                        request_info,
                        server_num,
                    },
                )
            } else {
                None
            };
            RequestAction::Search { table_request, logged }
        },
        _ => RequestAction::Invalid(request_info),
    }
}

} // verus!
