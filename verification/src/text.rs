use vstd::prelude::*;

verus! {

/// The character of a decimal digit `0 <= d < 10`.
pub open spec fn digit_char(d: int) -> char {
    if d == 0 {
        '0'
    } else if d == 1 {
        '1'
    } else if d == 2 {
        '2'
    } else if d == 3 {
        '3'
    } else if d == 4 {
        '4'
    } else if d == 5 {
        '5'
    } else if d == 6 {
        '6'
    } else if d == 7 {
        '7'
    } else if d == 8 {
        '8'
    } else {
        '9'
    }
}

/// The decimal digits of a natural number, most significant first, without
/// leading zeros (zero itself is written `0`).
pub open spec fn decimal_digits(n: nat) -> Seq<char>
    decreases n,
{
    if n < 10 {
        seq![digit_char(n as int)]
    } else {
        decimal_digits(n / 10).push(digit_char((n % 10) as int))
    }
}

/// The decimal text of an integer, with a leading `-` when it is negative.
pub open spec fn decimal(n: int) -> Seq<char> {
    if n < 0 {
        seq!['-'] + decimal_digits((-n) as nat)
    } else {
        decimal_digits(n as nat)
    }
}

/// The value of a decimal digit character (`0` for any other character).
pub open spec fn digit_value(c: char) -> int {
    if c == '1' {
        1
    } else if c == '2' {
        2
    } else if c == '3' {
        3
    } else if c == '4' {
        4
    } else if c == '5' {
        5
    } else if c == '6' {
        6
    } else if c == '7' {
        7
    } else if c == '8' {
        8
    } else if c == '9' {
        9
    } else {
        0
    }
}

/// A decimal digit character.
pub open spec fn is_digit(c: char) -> bool {
    '0' <= c && c <= '9'
}

/// The number that a string of decimal digits denotes.
pub open spec fn digits_value(s: Seq<char>) -> int
    decreases s.len(),
{
    if s.len() == 0 {
        0
    } else {
        digits_value(s.drop_last()) * 10 + digit_value(s.last())
    }
}

/// The number that decimal text denotes: digits, with an optional leading
/// `-`.
pub open spec fn decimal_value(s: Seq<char>) -> int {
    if s.len() > 0 && s[0] == '-' {
        -digits_value(s.drop_first())
    } else {
        digits_value(s)
    }
}

proof fn lemma_digit_roundtrip(d: int)
    requires
        0 <= d < 10,
    ensures
        digit_value(digit_char(d)) == d,
        is_digit(digit_char(d)),
{
}

/// The decimal digits of a number are digits, there is at least one, and
/// they denote the number back.
pub proof fn lemma_decimal_digits_parse_back(n: nat)
    ensures
        decimal_digits(n).len() > 0,
        forall|i: int| 0 <= i < decimal_digits(n).len() ==> is_digit(#[trigger] decimal_digits(n)[i]),
        digits_value(decimal_digits(n)) == n,
    decreases n,
{
    if n >= 10 {
        lemma_decimal_digits_parse_back(n / 10);
        let d = decimal_digits(n);
        assert(d.drop_last() =~= decimal_digits(n / 10));
        assert forall|i: int| 0 <= i < d.len() implies is_digit(#[trigger] d[i]) by {
            if i < d.len() - 1 {
                assert(d[i] == decimal_digits(n / 10)[i]);
            }
        }
        lemma_digit_roundtrip((n % 10) as int);
        assert(d.last() == digit_char((n % 10) as int));
        vstd::arithmetic::div_mod::lemma_fundamental_div_mod(n as int, 10);
        assert((n / 10) * 10 + n % 10 == n) by (nonlinear_arith)
            requires
                n == 10 * (n / 10) + n % 10,
        ;
        assert(digits_value(d) == digits_value(d.drop_last()) * 10 + digit_value(d.last()));
        assert(digits_value(d.drop_last()) == n / 10);
    } else {
        lemma_digit_roundtrip(n as int);
        let d = decimal_digits(n);
        assert(d.drop_last() =~= Seq::<char>::empty());
        assert(digits_value(d) == digits_value(d.drop_last()) * 10 + digit_value(d.last()));
    }
}

/// Decimal text parses back to the number it was written from: what
/// `i64_to_decimal` and `u64_to_decimal` write (a heartbeat's timestamp
/// among them) denotes the integer again.
pub proof fn lemma_decimal_parses_back(n: int)
    ensures
        decimal_value(decimal(n)) == n,
{
    if n < 0 {
        lemma_decimal_digits_parse_back((-n) as nat);
        let d = decimal(n);
        assert(d.drop_first() =~= decimal_digits((-n) as nat));
    } else {
        lemma_decimal_digits_parse_back(n as nat);
        assert(is_digit(decimal_digits(n as nat)[0]));
    }
}

/// Canonical decimal digits: at least one, all digits, and no leading
/// zero unless the number is zero itself.
pub open spec fn is_canonical_digits(t: Seq<char>) -> bool {
    &&& t.len() > 0
    &&& forall|i: int| 0 <= i < t.len() ==> is_digit(#[trigger] t[i])
    &&& (t.len() == 1 || t[0] != '0')
}

/// Canonical decimal text of an integer: canonical digits, with a leading
/// `-` only before a non-zero magnitude.
pub open spec fn is_canonical_decimal(t: Seq<char>) -> bool {
    if t.len() > 0 && t[0] == '-' {
        is_canonical_digits(t.drop_first()) && t.drop_first() != seq!['0']
    } else {
        is_canonical_digits(t)
    }
}

proof fn lemma_decimal_digits_lead(n: nat)
    ensures
        n > 0 ==> decimal_digits(n)[0] != '0',
        n == 0 ==> decimal_digits(n) == seq!['0'],
        n < 10 ==> decimal_digits(n).len() == 1,
        n >= 10 ==> decimal_digits(n).len() >= 2,
    decreases n,
{
    if n >= 10 {
        lemma_decimal_digits_lead(n / 10);
        assert(decimal_digits(n)[0] == decimal_digits(n / 10)[0]);
    } else {
        assert(decimal_digits(n)[0] == digit_char(n as int));
    }
}

/// Decimal text is the canonical way of writing a number: digits with no
/// leading zero (zero is written `0`), a `-` only before a non-zero
/// magnitude, and it denotes the number back. Only one text has all of
/// these properties, so they fix what `i64_to_decimal` and `u64_to_decimal`
/// write.
pub proof fn lemma_decimal_is_canonical(n: int)
    ensures
        is_canonical_decimal(decimal(n)),
        decimal_value(decimal(n)) == n,
        n >= 0 ==> decimal(n)[0] != '-',
{
    lemma_decimal_parses_back(n);
    if n < 0 {
        let m = (-n) as nat;
        lemma_decimal_digits_parse_back(m);
        lemma_decimal_digits_lead(m);
        assert(decimal(n).drop_first() =~= decimal_digits(m));
        assert(decimal(n)[0] == '-');
        if decimal_digits(m) == seq!['0'] {
            assert(decimal_digits(m)[0] == '0');
        }
    } else {
        let m = n as nat;
        lemma_decimal_digits_parse_back(m);
        lemma_decimal_digits_lead(m);
        assert(is_digit(decimal_digits(m)[0]));
    }
}

/// The text of one decimal digit.
fn digit_text(d: u64) -> (s: String)
    requires
        d < 10,
    ensures
        s@ == seq![digit_char(d as int)],
{
    proof {
        reveal_strlit("0");
        reveal_strlit("1");
        reveal_strlit("2");
        reveal_strlit("3");
        reveal_strlit("4");
        reveal_strlit("5");
        reveal_strlit("6");
        reveal_strlit("7");
        reveal_strlit("8");
        reveal_strlit("9");
    }
    let t = if d == 0 {
        "0"
    } else if d == 1 {
        "1"
    } else if d == 2 {
        "2"
    } else if d == 3 {
        "3"
    } else if d == 4 {
        "4"
    } else if d == 5 {
        "5"
    } else if d == 6 {
        "6"
    } else if d == 7 {
        "7"
    } else if d == 8 {
        "8"
    } else {
        "9"
    };
    let s = String::from_str(t);
    assert(s@ =~= seq![digit_char(d as int)]);
    s
}

/// Decimal text of an unsigned integer: its digits, most significant
/// first, without leading zeros.
pub fn u64_to_decimal(n: u64) -> (s: String)
    ensures
        s@ == decimal(n as int),
{
    let mut rem: u64 = n;
    let mut acc = String::new();
    while rem >= 10
        invariant
            decimal_digits(n as nat) == decimal_digits(rem as nat) + acc@,
        decreases rem,
    {
        let d = digit_text(rem % 10);
        proof {
            assert(decimal_digits(rem as nat) == decimal_digits((rem / 10) as nat).push(
                digit_char((rem % 10) as int),
            ));
            assert(decimal_digits(rem as nat) + acc@ =~= decimal_digits((rem / 10) as nat) + (d@
                + acc@));
        }
        acc = d.concat(acc.as_str());
        rem = rem / 10;
    }
    let head = digit_text(rem);
    let s = head.concat(acc.as_str());
    assert(s@ =~= decimal_digits(rem as nat) + acc@);
    s
}

/// Decimal text of a signed integer: its digits, with a `-` before
/// negative numbers.
pub fn i64_to_decimal(n: i64) -> (s: String)
    ensures
        s@ == decimal(n as int),
{
    if n < 0 {
        let magnitude: u64 = (-(n as i128)) as u64;
        let digits = u64_to_decimal(magnitude);
        proof {
            reveal_strlit("-");
        }
        let s = String::from_str("-").concat(digits.as_str());
        assert(s@ =~= seq!['-'] + decimal_digits((-n) as nat));
        s
    } else {
        u64_to_decimal(n as u64)
    }
}

/// `prefix` followed by the decimal text of `n`.
pub fn with_decimal_suffix(prefix: &str, n: i64) -> (s: String)
    ensures
        s@ == prefix@ + decimal(n as int),
{
    let digits = i64_to_decimal(n);
    let head = String::from_str(prefix);
    head.concat(digits.as_str())
}

} // verus!
