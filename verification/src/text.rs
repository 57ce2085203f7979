use vstd::prelude::*;
use vstd::string::*;

verus! {

/// A lowercase ASCII letter or an ASCII digit.
pub open spec fn is_account_alnum(c: char) -> bool {
    ('a' <= c && c <= 'z') || ('0' <= c && c <= '9')
}

/// One of the separators an account ID may hold between alphanumeric runs.
pub open spec fn is_account_separator(c: char) -> bool {
    c == '-' || c == '_' || c == '.'
}

/// NEAR's account ID rules: 2 to 64 characters, each a lowercase letter, a
/// digit or a separator (`-`, `_`, `.`), neither starting nor ending with a
/// separator, and never two separators in a row.
pub open spec fn account_id_rules(s: Seq<char>) -> bool {
    &&& 2 <= s.len() <= 64
    &&& forall|i: int| 0 <= i < s.len() ==> is_account_alnum(s[i]) || is_account_separator(s[i])
    &&& !is_account_separator(s[0])
    &&& !is_account_separator(s[s.len() - 1])
    &&& forall|i: int|
        0 <= i < s.len() - 1 ==> !(#[trigger] is_account_separator(s[i]) && is_account_separator(s[i + 1]))
}

/// Whether `s` is a valid account ID, as decided by
/// `near_sdk::env::is_valid_account_id` on its bytes.
///
/// Trusted: the contract claims that the SDK check accepts exactly the strings
/// that meet `account_id_rules` (the SDK's loop rejects any byte outside
/// `[a-z0-9._-]`, two separators in a row, a separator at either end and a
/// length outside 2..=64; a non-ASCII character gives a byte outside that set).
#[verifier::external_body]
pub(crate) fn is_valid_account_id(s: &str) -> (valid: bool)
    ensures
        valid == account_id_rules(s@),
{
    near_sdk::env::is_valid_account_id(s.as_bytes())
}

/// The character of the decimal digit `d`.
pub open spec fn digit_char(d: nat) -> char {
    (d + 48) as char
}

/// The decimal numeral of `n`, without sign or leading zeros.
pub open spec fn decimal_text(n: nat) -> Seq<char>
    decreases n,
{
    if n < 10 {
        seq![digit_char(n)]
    } else {
        decimal_text(n / 10).push(digit_char(n % 10))
    }
}

/// The one-character numeral of the digit `d`.
fn digit_str(d: u128) -> (r: &'static str)
    requires
        d < 10,
    ensures
        r@ == seq![digit_char(d as nat)],
{
    proof {
        reveal_strlit("0");
        reveal_strlit("1");
        reveal_strlit("2");
        reveal_strlit("3");
        reveal_strlit("4");
        reveal_strlit("5");
        reveal_strlit("6");
        reveal_strlit("7");
        reveal_strlit("8");
        reveal_strlit("9");
    }
    let r = if d == 0 {
        "0"
    } else if d == 1 {
        "1"
    } else if d == 2 {
        "2"
    } else if d == 3 {
        "3"
    } else if d == 4 {
        "4"
    } else if d == 5 {
        "5"
    } else if d == 6 {
        "6"
    } else if d == 7 {
        "7"
    } else if d == 8 {
        "8"
    } else {
        "9"
    };
    assert(r@ =~= seq![digit_char(d as nat)]);
    r
}

/// The decimal numeral of `n`, as `u128`'s `to_string` writes it: the
/// numeral of `n / 10` (for `n` of two digits or more) followed by the digit
/// `n % 10`.
pub(crate) fn decimal_string(n: u128) -> (s: String)
    ensures
        s@ == decimal_text(n as nat),
    decreases n,
{
    if n < 10 {
        String::from_str(digit_str(n))
    } else {
        let mut s = decimal_string(n / 10);
        s.append(digit_str(n % 10));
        assert(s@ =~= decimal_text(n as nat));
        s
    }
}

/// An ASCII decimal digit.
pub open spec fn is_digit(c: char) -> bool {
    '0' <= c && c <= '9'
}

/// The value of a string of decimal digits.
pub open spec fn digits_value(s: Seq<char>) -> nat
    decreases s.len(),
{
    if s.len() == 0 {
        0
    } else {
        digits_value(s.drop_last()) * 10 + (s.last() as int - 48) as nat
    }
}

/// What `str::parse::<u128>` gives for `s`: an optional `+`, then at least
/// one decimal digit and nothing else, whose value fits in `u128`.
/// The part of `s` that `str::parse::<u128>` reads as digits: `s` without
/// one leading `+`.
pub open spec fn unsigned_digits(s: Seq<char>) -> Seq<char> {
    if s.len() > 0 && s[0] == '+' {
        s.drop_first()
    } else {
        s
    }
}

pub open spec fn unsigned_value(s: Seq<char>) -> Option<u128> {
    let digits = unsigned_digits(s);
    if digits.len() > 0 && (forall|i: int| 0 <= i < digits.len() ==> is_digit(digits[i]))
        && digits_value(digits) <= u128::MAX {
        Some(digits_value(digits) as u128)
    } else {
        None
    }
}

/// A numeral of digits is worth at least any of its prefixes.
proof fn lemma_prefix_value_le(t: Seq<char>, j: int)
    requires
        0 <= j <= t.len(),
        forall|i: int| 0 <= i < t.len() ==> is_digit(t[i]),
    ensures
        digits_value(t.subrange(0, j)) <= digits_value(t),
    decreases t.len(),
{
    if j < t.len() {
        let u = t.drop_last();
        assert(u.subrange(0, j) =~= t.subrange(0, j));
        lemma_prefix_value_le(u, j);
    } else {
        assert(t.subrange(0, j) =~= t);
    }
}

/// Reads a decimal `u128` as `str::parse::<u128>` does: an optional `+`,
/// then one or more ASCII digits, and nothing on anything else or on a value
/// above `u128::MAX`.
pub(crate) fn parse_unsigned(s: &str) -> (r: Option<u128>)
    ensures
        r == unsigned_value(s@),
{
    let len = s.unicode_len();
    let start: usize = if len > 0 && s.get_char(0) == '+' {
        1
    } else {
        0
    };
    let ghost digits = unsigned_digits(s@);
    assert(digits =~= s@.subrange(start as int, len as int));
    if start == len {
        return None;
    }
    let mut value: u128 = 0;
    let mut i: usize = start;
    while i < len
        invariant
            start < len,
            start <= i <= len,
            len == s@.len(),
            digits == s@.subrange(start as int, len as int),
            digits == unsigned_digits(s@),
            forall|j: int| start <= j < i ==> is_digit(s@[j]),
            value == digits_value(s@.subrange(start as int, i as int)),
        decreases len - i,
    {
        let c = s.get_char(i);
        let code = c as u32;
        if code < 48 || code > 57 {
            assert(digits[i - start] == c);
            assert(!(forall|j: int| 0 <= j < unsigned_digits(s@).len() ==> is_digit(unsigned_digits(s@)[j])));
            return None;
        }
        let d: u128 = (code - 48) as u128;
        let ghost prefix = s@.subrange(start as int, i + 1);
        assert(prefix.drop_last() =~= s@.subrange(start as int, i as int));
        assert(prefix.last() == c);
        assert(digits_value(prefix) == value * 10 + d);
        let next = match value.checked_mul(10) {
            Some(t) => t.checked_add(d),
            None => None,
        };
        match next {
            Some(v) => {
                value = v;
            },
            None => {
                proof {
                    if forall|j: int| 0 <= j < unsigned_digits(s@).len() ==> is_digit(unsigned_digits(s@)[j]) {
                        assert(digits.subrange(0, i + 1 - start) =~= prefix);
                        lemma_prefix_value_le(digits, i + 1 - start);
                    }
                }
                return None;
            },
        }
        i = i + 1;
    }
    assert(s@.subrange(start as int, len as int) =~= digits);
    Some(value)
}

/// `s` with every match of the non-empty pattern `from` replaced by `to`,
/// scanning from the left and never letting two matches overlap.
pub open spec fn replace_all(s: Seq<char>, from: Seq<char>, to: Seq<char>) -> Seq<char>
    decreases s.len(),
{
    if from.len() == 0 || s.len() < from.len() {
        s
    } else if s.subrange(0, from.len() as int) == from {
        to + replace_all(s.subrange(from.len() as int, s.len() as int), from, to)
    } else {
        seq![s[0]] + replace_all(s.subrange(1, s.len() as int), from, to)
    }
}

/// Replaces every match of `from` in `s` with `to`, with std's `str::replace`.
///
/// Trusted: the contract claims std's documented behaviour, which finds the
/// matches left to right without overlap (stated here for a non-empty pattern).
#[verifier::external_body]
pub(crate) fn replace_text(s: &str, from: &str, to: &str) -> (r: String)
    requires
        from@.len() > 0,
    ensures
        r@ == replace_all(s@, from@, to@),
{
    s.replace(from, to)
}

/// `s` followed by `suffix`, as a new string.
pub(crate) fn joined(s: &str, suffix: &str) -> (r: String)
    ensures
        r@ == s@ + suffix@,
{
    let mut r = s.to_owned();
    r.append(suffix);
    r
}

} // verus!
