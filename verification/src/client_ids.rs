use vstd::prelude::*;

use crate::text::{
    decimal, decimal_value, i64_to_decimal, is_canonical_decimal, lemma_decimal_is_canonical,
    with_decimal_suffix,
};
use crate::topics::names_number;

verus! {

/// A lower-case hexadecimal digit.
pub open spec fn is_lower_hex(c: char) -> bool {
    ('0' <= c && c <= '9') || ('a' <= c && c <= 'f')
}

/// The text of a random (version 4) UUID in hyphenated lower-case form,
/// such as `67e55044-10b1-426f-9247-bb680e5fe0c8`: 36 characters, hyphens at
/// 8, 13, 18 and 23, hexadecimal digits elsewhere, the version digit `4` at
/// 14 and a variant digit among `8`, `9`, `a`, `b` at 19.
pub open spec fn is_v4_uuid_text(s: Seq<char>) -> bool {
    &&& s.len() == 36
    &&& forall|i: int|
        0 <= i < 36 ==> if i == 8 || i == 13 || i == 18 || i == 23 {
            s[i] == '-'
        } else {
            is_lower_hex(#[trigger] s[i])
        }
    &&& s[14] == '4'
    &&& s[19] == '8' || s[19] == '9' || s[19] == 'a' || s[19] == 'b'
}

/// A fresh random UUID from `uuid::Uuid::new_v4`, written by its `Display`
/// (hyphenated, lower case). Trusted: the text has that form; nothing is
/// claimed of which UUID comes out, which rests on chance.
#[verifier::external_body]
fn new_uuid_text() -> (s: String)
    ensures
        is_v4_uuid_text(s@),
{
    uuid::Uuid::new_v4().to_string()
}

/// The MQTT client id of a server's connection: the base name (`SERVER`
/// when none is given), the server's number and a unique suffix, joined by
/// `_`.
pub open spec fn spec_server_client_id(
    base_name: Option<Seq<char>>,
    server_num: int,
    unique: Seq<char>,
) -> Seq<char> {
    let base = match base_name {
        Some(b) => b,
        None => "SERVER"@,
    };
    base + "_"@ + decimal(server_num) + "_"@ + unique
}

/// The view of an optional string.
pub open spec fn opt_view(s: Option<String>) -> Option<Seq<char>> {
    match s {
        Some(t) => Some(t@),
        None => None,
    }
}

/// The client id of a server's connection with the given unique suffix.
pub fn server_client_id(base_name: Option<String>, server_num: i32, unique: &str) -> (id: String)
    ensures
        id@ == spec_server_client_id(opt_view(base_name), server_num as int, unique@),
{
    let base = match base_name {
        Some(b) => b,
        None => String::from_str("SERVER"),
    };
    let number = i64_to_decimal(server_num as i64);
    let id = base.concat("_").concat(number.as_str()).concat("_").concat(unique);
    id
}

/// A fresh client id for a server's connection, made unique by a random
/// UUID.
pub fn new_server_client_id(base_name: Option<String>, server_num: i32) -> (id: String)
    ensures
        exists|u: Seq<char>|
            is_v4_uuid_text(u) && id@ == spec_server_client_id(
                opt_view(base_name),
                server_num as int,
                u,
            ),
{
    let unique = new_uuid_text();
    server_client_id(base_name, server_num, unique.as_str())
}

/// The client id of a client.
pub open spec fn spec_client_id(client_num: int) -> Seq<char> {
    "CLIENT_"@ + decimal(client_num)
}

/// The client id of client `client_num`: `CLIENT_` and the number.
pub fn client_client_id(client_num: i32) -> (id: String)
    ensures
        id@ == spec_client_id(client_num as int),
{
    with_decimal_suffix("CLIENT_", client_num as i64)
}

/// The client id of one of the monitor's connections: `MONITOR_` and the
/// suffix.
pub fn monitor_client_id(client_suffix: &String) -> (id: String)
    ensures
        id@ == "MONITOR_"@ + client_suffix@,
{
    String::from_str("MONITOR_").concat(client_suffix.as_str())
}

/// The client id of a subscriber: `SUB_CLIENT_` and its name, `0` when none
/// is given.
pub fn sub_client_id(name: Option<String>) -> (id: String)
    ensures
        id@ == "SUB_CLIENT_"@ + match name {
            Some(n) => n@,
            None => "0"@,
        },
{
    let head = String::from_str("SUB_CLIENT_");
    match name {
        Some(n) => head.concat(n.as_str()),
        None => head.concat("0"),
    }
}

/// A client's id is `CLIENT_` followed by the canonical decimal text of
/// the client's own number; distinct clients get distinct ids.
pub proof fn lemma_client_id_names_client(n: int, m: int)
    ensures
        names_number(spec_client_id(n), "CLIENT_"@, n),
        n != m ==> spec_client_id(n) != spec_client_id(m),
{
    lemma_decimal_is_canonical(n);
    lemma_decimal_is_canonical(m);
    let t = "CLIENT_"@ + decimal(n);
    assert(t.take("CLIENT_"@.len() as int) =~= "CLIENT_"@);
    assert(t.skip("CLIENT_"@.len() as int) =~= decimal(n));
    if n != m {
        let u = "CLIENT_"@ + decimal(m);
        assert(u.skip("CLIENT_"@.len() as int) =~= decimal(m));
    }
}

/// A server connection's id is the base name (`SERVER` when none is
/// given), `_`, the canonical decimal text of the server's own number, `_`,
/// and the unique suffix.
pub proof fn lemma_server_client_id_parts(base_name: Option<Seq<char>>, server_num: int, unique: Seq<char>)
    ensures
        exists|t: Seq<char>|
            is_canonical_decimal(t) && decimal_value(t) == server_num && spec_server_client_id(
                base_name,
                server_num,
                unique,
            ) == match base_name {
                Some(b) => b,
                None => "SERVER"@,
            } + "_"@ + t + "_"@ + unique,
{
    lemma_decimal_is_canonical(server_num);
    let t = decimal(server_num);
    assert(is_canonical_decimal(t) && decimal_value(t) == server_num);
}

} // verus!
