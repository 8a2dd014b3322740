use vstd::prelude::*;

use crate::messages::RequestInfo;

verus! {

broadcast use vstd::string::group_string_axioms;

/// The sum of the code points of the characters of a key.
pub open spec fn char_sum(s: Seq<char>) -> int
    decreases s.len(),
{
    if s.len() == 0 {
        0
    } else {
        char_sum(s.drop_last()) + (s.last() as u32 as int)
    }
}

/// The absolute value of an integer.
pub open spec fn abs(n: int) -> int {
    if n < 0 { -n } else { n }
}

/// What Rust's `%` gives for `a % b` (`b != 0`): the remainder of `|a|`
/// divided by `|b|`, with the sign of `a`.
pub open spec fn rust_rem(a: int, b: int) -> int {
    if a >= 0 {
        a % abs(b)
    } else {
        -((-a) % abs(b))
    }
}

/// The number that a key is assigned to among `server_count` servers.
pub open spec fn key_bucket(key: Seq<char>, server_count: int) -> int {
    rust_rem(char_sum(key), server_count)
}

/// A node whose responsibilities are `responsibilities` answers searches
/// for `key`.
pub open spec fn is_responsible_for(
    key: Seq<char>,
    responsibilities: Seq<i32>,
    server_count: int,
) -> bool {
    exists|i: int|
        0 <= i < responsibilities.len() && responsibilities[i] == key_bucket(key, server_count)
}

/// The node `server_num`, responsible for `responsibilities`, takes over
/// the work of the failed server `failed`: it is not the failed server, and
/// one of its responsibilities is the failed server's successor.
pub open spec fn takes_over(
    failed: int,
    responsibilities: Seq<i32>,
    server_count: int,
    server_num: int,
) -> bool {
    &&& failed != server_num
    &&& exists|i: int|
        0 <= i < responsibilities.len() && responsibilities[i] == rust_rem(
            failed + 1,
            server_count,
        )
}

proof fn lemma_char_sum_nonneg(s: Seq<char>)
    ensures
        char_sum(s) >= 0,
    decreases s.len(),
{
    if s.len() > 0 {
        lemma_char_sum_nonneg(s.drop_last());
    }
}

proof fn lemma_char_sum_prefix(s: Seq<char>, i: int)
    requires
        0 <= i <= s.len(),
    ensures
        char_sum(s.take(i)) <= char_sum(s),
    decreases s.len() - i,
{
    if i < s.len() {
        lemma_char_sum_prefix(s, i + 1);
        assert(s.take(i + 1).drop_last() =~= s.take(i));
    } else {
        assert(s.take(i) =~= s);
    }
}

/// Rust's `a % b` for `b != 0`, where `a % b` does not overflow.
fn remainder(a: i32, b: i32) -> (r: i32)
    requires
        b != 0,
        !(a == i32::MIN && b == -1),
    ensures
        r == rust_rem(a as int, b as int),
{
    let ua: u64 = if a >= 0 { a as u64 } else { (-(a as i64)) as u64 };
    let ub: u64 = if b >= 0 { b as u64 } else { (-(b as i64)) as u64 };
    let r: u64 = ua % ub;
    assert(r < ub);
    if a >= 0 {
        r as i32
    } else {
        -(r as i32)
    }
}

/// The sum of the code points of the characters of `key`.
pub fn key_char_sum(key: &String) -> (total: i32)
    requires
        char_sum(key@) <= i32::MAX,
    ensures
        total == char_sum(key@),
{
    let mut total: i32 = 0;
    for c in it: key.chars()
        invariant
            it.seq() == key@,
            char_sum(key@) <= i32::MAX,
            total == char_sum(key@.take(it.index() as int)),
    {
        proof {
            let i = it.index() as int;
            assert(c == key@[i]);
            assert(key@.take(i + 1).drop_last() =~= key@.take(i));
            lemma_char_sum_prefix(key@, i + 1);
            lemma_char_sum_nonneg(key@.take(i));
        }
        let code: u32 = c as u32;
        total = total + code as i32;
    }
    proof {
        assert(key@.take(key@.len() as int) =~= key@);
    }
    total
}

/// Whether the character sum of `key` fits in an `i32`, so that the
/// key can be assigned to a server.
pub fn char_sum_fits(key: &String) -> (fits: bool)
    ensures
        fits == (char_sum(key@) <= i32::MAX),
{
    let mut total: u64 = 0;
    for c in it: key.chars()
        invariant
            it.seq() == key@,
            total == char_sum(key@.take(it.index() as int)),
            total <= i32::MAX,
    {
        proof {
            let i = it.index() as int;
            assert(c == key@[i]);
            assert(key@.take(i + 1).drop_last() =~= key@.take(i));
        }
        let code: u32 = c as u32;
        total = total + code as u64;
        if total > 0x7fff_ffff {
            proof {
                lemma_char_sum_prefix(key@, it.index() + 1);
            }
            return false;
        }
    }
    proof {
        assert(key@.take(key@.len() as int) =~= key@);
    }
    true
}

/// The number that `key` is assigned to among `server_count` servers: the
/// sum of its characters, remainder `server_count`.
pub fn bucket_of(key: &String, server_count: i32) -> (b: i32)
    requires
        server_count != 0,
        char_sum(key@) <= i32::MAX,
    ensures
        b == key_bucket(key@, server_count as int),
{
    let total = key_char_sum(key);
    proof {
        lemma_char_sum_nonneg(key@);
    }
    remainder(total, server_count)
}

/// Whether this node answers searches for the request's key: the key's
/// bucket is one of the node's responsibilities.
pub fn is_this_node_search_responsability(
    request_info: &RequestInfo,
    node_responsabilities: &Vec<i32>,
    server_count: &i32,
) -> (responsible: bool)
    requires
        node_responsabilities@.len() > 0 ==> *server_count != 0,
        char_sum(request_info.key@) <= i32::MAX,
    ensures
        responsible == is_responsible_for(
            request_info.key@,
            node_responsabilities@,
            *server_count as int,
        ),
{
    if node_responsabilities.len() == 0 {
        return false;
    }
    let bucket = bucket_of(&request_info.key, *server_count);
    let mut i: usize = 0;
    while i < node_responsabilities.len()
        invariant
            0 <= i <= node_responsabilities.len(),
            bucket == key_bucket(request_info.key@, *server_count as int),
            forall|j: int| 0 <= j < i ==> node_responsabilities@[j] != bucket,
        decreases node_responsabilities.len() - i,
    {
        if node_responsabilities[i] == bucket {
            return true;
        }
        i = i + 1;
    }
    false
}

/// Whether the responsibility `responsability` is the successor of the
/// failed server `failed_server_id` among `server_count` servers.
fn is_successor_of_failed(responsability: i32, failed_server_id: i32, server_count: i32) -> (r: bool)
    requires
        server_count != 0,
        failed_server_id < i32::MAX,
    ensures
        r == (responsability == rust_rem(failed_server_id + 1, server_count as int)),
{
    remainder(failed_server_id + 1, server_count) == responsability
}

/// Whether this node, `server_num`, should take over the work of the failed
/// server whose number is the request's value: it is another server, and
/// one of its responsibilities is the failed server's successor.
pub fn should_become_substitute(
    request_info: &RequestInfo,
    node_responsabilities: &Vec<i32>,
    server_count: &i32,
    server_num: &i32,
) -> (substitute: bool)
    requires
        request_info.value != *server_num && node_responsabilities@.len() > 0 ==> *server_count
            != 0 && request_info.value < i32::MAX,
    ensures
        substitute == takes_over(
            request_info.value as int,
            node_responsabilities@,
            *server_count as int,
            *server_num as int,
        ),
{
    let failed_server_id = request_info.value;
    if failed_server_id != *server_num && node_responsabilities.len() > 0 {
        let mut i: usize = 0;
        while i < node_responsabilities.len()
            invariant
                0 <= i <= node_responsabilities.len(),
                failed_server_id == request_info.value,
                failed_server_id != *server_num,
                node_responsabilities@.len() > 0,
                failed_server_id < i32::MAX,
                *server_count != 0,
                forall|j: int|
                    0 <= j < i ==> node_responsabilities@[j] != rust_rem(
                        failed_server_id + 1,
                        *server_count as int,
                    ),
            decreases node_responsabilities.len() - i,
        {
            if is_successor_of_failed(node_responsabilities[i], failed_server_id, *server_count) {
                assert(node_responsabilities@[i as int] == rust_rem(
                    failed_server_id + 1,
                    *server_count as int,
                ));
                return true;
            }
            i = i + 1;
        }
    }
    false
}

proof fn lemma_char_sum_remove(s: Seq<char>, i: int)
    requires
        0 <= i < s.len(),
    ensures
        char_sum(s) == char_sum(s.remove(i)) + (s[i] as u32 as int),
    decreases s.len(),
{
    if i == s.len() - 1 {
        assert(s.remove(i) =~= s.drop_last());
    } else {
        lemma_char_sum_remove(s.drop_last(), i);
        assert(s.remove(i).drop_last() =~= s.drop_last().remove(i));
        assert(s.remove(i).last() == s.last());
    }
}

/// The character sum of a key does not depend on the order of its
/// characters: two keys made of the same characters, each as many times,
/// have the same sum.
pub proof fn lemma_char_sum_reorder(a: Seq<char>, b: Seq<char>)
    requires
        a.to_multiset() == b.to_multiset(),
    ensures
        char_sum(a) == char_sum(b),
    decreases a.len(),
{
    broadcast use vstd::seq_lib::group_to_multiset_ensures;

    if a.len() == 0 {
        assert(b.to_multiset().len() == 0);
        assert(b =~= Seq::<char>::empty());
    } else {
        let x = a.last();
        let rest = a.drop_last();
        assert(rest.push(x) =~= a);
        assert(a.to_multiset() =~= rest.to_multiset().insert(x));
        assert(a.contains(x)) by {
            assert(a[a.len() - 1] == x);
        }
        assert(b.to_multiset().count(x) > 0);
        assert(b.contains(x));
        let j = choose|j: int| 0 <= j < b.len() && b[j] == x;
        assert(b.remove(j).to_multiset() =~= b.to_multiset().remove(x));
        assert(rest.to_multiset() =~= a.to_multiset().remove(x));
        lemma_char_sum_reorder(rest, b.remove(j));
        lemma_char_sum_remove(b, j);
    }
}

/// Whether a node answers searches for a key does not depend on the order
/// of the key's characters nor on the order of the node's
/// responsibilities.
pub proof fn lemma_responsibility_ignores_order(
    key1: Seq<char>,
    key2: Seq<char>,
    r1: Seq<i32>,
    r2: Seq<i32>,
    server_count: int,
)
    requires
        key1.to_multiset() == key2.to_multiset(),
        r1.to_multiset() == r2.to_multiset(),
    ensures
        is_responsible_for(key1, r1, server_count) == is_responsible_for(key2, r2, server_count),
{
    broadcast use vstd::seq_lib::group_to_multiset_ensures;

    lemma_char_sum_reorder(key1, key2);
    let b = key_bucket(key1, server_count);
    assert(key_bucket(key2, server_count) == b);
    assert(r1.contains(b as i32) <==> r1.to_multiset().count(b as i32) > 0);
    assert(r2.contains(b as i32) <==> r2.to_multiset().count(b as i32) > 0);
    if is_responsible_for(key1, r1, server_count) {
        let i = choose|i: int| 0 <= i < r1.len() && r1[i] == b;
        assert(r1.contains(r1[i]));
        let j = choose|j: int| 0 <= j < r2.len() && r2[j] == r1[i];
        assert(r2[j] == key_bucket(key2, server_count));
    }
    if is_responsible_for(key2, r2, server_count) {
        let i = choose|i: int| 0 <= i < r2.len() && r2[i] == b;
        assert(r2.contains(r2[i]));
        let j = choose|j: int| 0 <= j < r1.len() && r1[j] == r2[i];
        assert(r1[j] == key_bucket(key1, server_count));
    }
}

/// Rust's remainder is the truncated one: `a == b * q + r` for some `q`,
/// with `|r| < |b|` and `r` of the sign of `a` (or zero).
pub proof fn lemma_rust_rem_is_truncated(a: int, b: int)
    requires
        b != 0,
    ensures
        abs(rust_rem(a, b)) < abs(b),
        a >= 0 ==> rust_rem(a, b) >= 0,
        a <= 0 ==> rust_rem(a, b) <= 0,
        exists|q: int| a == #[trigger] (b * q) + rust_rem(a, b),
{
    let m = abs(b);
    let x = abs(a);
    vstd::arithmetic::div_mod::lemma_fundamental_div_mod(x, m);
    vstd::arithmetic::div_mod::lemma_mod_bound(x, m);
    let k = x / m;
    let r = x % m;
    let q = if (a >= 0) == (b > 0) { k } else { -k };
    if a >= 0 {
        assert(rust_rem(a, b) == r);
        assert(a == b * q + r) by (nonlinear_arith)
            requires
                x == m * k + r,
                a >= 0,
                x == a,
                m == (if b < 0 { -b } else { b }),
                q == (if (a >= 0) == (b > 0) { k } else { -k }),
        ;
    } else {
        assert(rust_rem(a, b) == -r);
        assert(a == b * q - r) by (nonlinear_arith)
            requires
                x == m * k + r,
                a < 0,
                x == -a,
                m == (if b < 0 { -b } else { b }),
                q == (if (a >= 0) == (b > 0) { k } else { -k }),
        ;
    }
    assert(a == b * q + rust_rem(a, b));
}

/// The sum of an empty key is zero, and appending a character adds its code
/// point.
pub proof fn lemma_char_sum_push(k: Seq<char>, c: char)
    ensures
        char_sum(Seq::<char>::empty()) == 0,
        char_sum(k.push(c)) == char_sum(k) + (c as u32 as int),
{
    assert(k.push(c).drop_last() =~= k);
}

/// Keys are placed by their code-point sum alone: the empty key falls to 0,
/// a one-character key to its code point modulo the server count, and
/// appending a character moves a key's bucket on by the character's code
/// point, modulo the server count.
pub proof fn lemma_bucket_by_code_points(k: Seq<char>, c: char, n: int)
    requires
        n > 0,
    ensures
        key_bucket(Seq::<char>::empty(), n) == 0,
        key_bucket(seq![c], n) == (c as u32 as int) % n,
        key_bucket(k.push(c), n) == (key_bucket(k, n) + (c as u32 as int)) % n,
{
    lemma_char_sum_push(k, c);
    lemma_char_sum_push(Seq::<char>::empty(), c);
    assert(Seq::<char>::empty().push(c) =~= seq![c]);
    lemma_char_sum_nonneg(k);
    vstd::arithmetic::div_mod::lemma_add_mod_noop_right(
        c as u32 as int,
        char_sum(k),
        n,
    );
    assert(abs(n) == n);
}

/// A node answers for a key when any one of its responsibilities, at any
/// position, is the key's bucket; and only then.
pub proof fn lemma_responsible_at_any_position(key: Seq<char>, r: Seq<i32>, n: int, i: int)
    ensures
        0 <= i < r.len() && r[i] == key_bucket(key, n) ==> is_responsible_for(key, r, n),
        (forall|j: int| 0 <= j < r.len() ==> r[j] != key_bucket(key, n)) ==> !is_responsible_for(
            key,
            r,
            n,
        ),
{
}

/// A server never takes over for itself.
pub proof fn lemma_no_self_takeover(r: Seq<i32>, n: int, s: int)
    ensures
        !takes_over(s, r, n, s),
{
}

/// Another server takes over when any one of its responsibilities, at any
/// position, is the failed server's successor `(failed + 1)` rem the server
/// count; when none is, it does not.
pub proof fn lemma_takeover_at_any_position(failed: int, r: Seq<i32>, n: int, s: int, i: int)
    requires
        failed != s,
    ensures
        0 <= i < r.len() && r[i] == rust_rem(failed + 1, n) ==> takes_over(failed, r, n, s),
        (forall|j: int| 0 <= j < r.len() ==> r[j] != rust_rem(failed + 1, n)) ==> !takes_over(
            failed,
            r,
            n,
            s,
        ),
{
}

/// Taking over is monotone in the responsibilities and ignores their order:
/// a node that takes over still does with responsibilities that include all
/// of its former ones, in any order.
pub proof fn lemma_takeover_monotone(failed: int, r1: Seq<i32>, r2: Seq<i32>, n: int, s: int)
    requires
        takes_over(failed, r1, n, s),
        forall|i: int| 0 <= i < r1.len() ==> r2.contains(#[trigger] r1[i]),
    ensures
        takes_over(failed, r2, n, s),
{
    let i = choose|i: int| 0 <= i < r1.len() && r1[i] == rust_rem(failed + 1, n);
    assert(r2.contains(r1[i]));
    let j = choose|j: int| 0 <= j < r2.len() && r2[j] == r1[i];
    assert(r2[j] == rust_rem(failed + 1, n));
}

/// Whether a node takes over does not depend on the order of its
/// responsibilities.
pub proof fn lemma_takeover_ignores_order(failed: int, r1: Seq<i32>, r2: Seq<i32>, n: int, s: int)
    requires
        r1.to_multiset() == r2.to_multiset(),
    ensures
        takes_over(failed, r1, n, s) == takes_over(failed, r2, n, s),
{
    broadcast use vstd::seq_lib::group_to_multiset_ensures;

    if takes_over(failed, r1, n, s) {
        assert forall|i: int| 0 <= i < r1.len() implies r2.contains(#[trigger] r1[i]) by {
            assert(r1.contains(r1[i]));
            assert(r1.to_multiset().count(r1[i]) > 0);
        }
        lemma_takeover_monotone(failed, r1, r2, n, s);
    }
    if takes_over(failed, r2, n, s) {
        assert forall|i: int| 0 <= i < r2.len() implies r1.contains(#[trigger] r2[i]) by {
            assert(r2.contains(r2[i]));
            assert(r2.to_multiset().count(r2[i]) > 0);
        }
        lemma_takeover_monotone(failed, r2, r1, n, s);
    }
}

/// With `server_count` servers each responsible for its own number, every
/// key whose character sum is representable falls to exactly one of them:
/// its bucket lies in `0..server_count`, and the server `s` answers searches
/// for it if and only if `s` is that bucket.
pub proof fn lemma_exactly_one_server_responsible(key: Seq<char>, server_count: i32, s: i32)
    requires
        server_count > 0,
    ensures
        0 <= key_bucket(key, server_count as int) < server_count,
        is_responsible_for(key, seq![s], server_count as int) <==> s == key_bucket(
            key,
            server_count as int,
        ),
{
    lemma_char_sum_nonneg(key);
    if s == key_bucket(key, server_count as int) {
        assert(seq![s][0] == s);
    }
}

/// When server `failed` of `server_count` servers (numbered `0..server_count`,
/// each responsible for its own number) fails, the one server that takes
/// over is its successor `(failed + 1) % server_count`; with a single server
/// nobody does.
pub proof fn lemma_successor_takes_over(failed: i32, server_count: i32, s: i32)
    requires
        0 <= failed < server_count,
        0 <= s < server_count,
    ensures
        takes_over(failed as int, seq![s], server_count as int, s as int) <==> (server_count >= 2
            && s == (failed + 1) % (server_count as int)),
{
    if server_count >= 2 && s == (failed + 1) % (server_count as int) {
        assert(seq![s][0] == s);
        if failed + 1 < server_count {
            vstd::arithmetic::div_mod::lemma_small_mod((failed + 1) as nat, server_count as nat);
        } else {
            vstd::arithmetic::div_mod::lemma_mod_self_0(server_count as int);
        }
    }
}

} // verus!
