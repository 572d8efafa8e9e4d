//! The "used/seen" satellite count encoding.
use vstd::prelude::*;
use crate::text::{
    all_digits, digit_value, digits_value, find_char, find_in, is_digit, lemma_find_char_bounds, parse_digits,
};

verus! {

/// Error for a field whose text does not follow its encoding.
#[derive(Clone, Copy, Debug, PartialEq, Eq, Structural)]
pub struct MalformedField;

/// The integer written by `s`: an optional `+` or `-` followed by one or
/// more ASCII digits.
pub open spec fn int_text_value(s: Seq<char>) -> Option<int> {
    if s.len() > 0 && (s[0] == '-' || s[0] == '+') {
        let d = s.drop_first();
        if d.len() > 0 && all_digits(d) {
            Some(
                if s[0] == '-' {
                    -digits_value(d)
                } else {
                    digits_value(d) as int
                },
            )
        } else {
            None
        }
    } else if s.len() > 0 && all_digits(s) {
        Some(digits_value(s) as int)
    } else {
        None
    }
}

/// The `i64` written by `s`, where the value is in range.
pub open spec fn i64_text_value(s: Seq<char>) -> Option<i64> {
    match int_text_value(s) {
        Some(v) => if i64::MIN <= v <= i64::MAX {
            Some(v as i64)
        } else {
            None
        },
        None => None,
    }
}

/// The pair written by `"<used>/<seen>"`: the text before the first `/` and
/// the text after it each write an `i64`.
pub open spec fn used_seen_of(s: Seq<char>) -> Option<(i64, i64)> {
    match find_char(s, '/') {
        Some(i) => match (
            i64_text_value(s.subrange(0, i)),
            i64_text_value(s.subrange(i + 1, s.len() as int)),
        ) {
            (Some(u), Some(v)) => Some((u, v)),
            _ => None,
        },
        None => None,
    }
}

/// Parses `s[lo..hi]` as a signed decimal `i64`.
pub fn parse_i64(s: &str, lo: usize, hi: usize) -> (r: Option<i64>)
    requires
        lo <= hi <= s@.len(),
    ensures
        r == i64_text_value(s@.subrange(lo as int, hi as int)),
{
    let ghost t = s@.subrange(lo as int, hi as int);
    if lo == hi {
        return None;
    }
    let c = s.get_char(lo);
    let signed = c == '-' || c == '+';
    let start: usize = if signed { lo + 1 } else { lo };
    if signed && start == hi {
        return None;
    }
    let ghost d = s@.subrange(start as int, hi as int);
    assert(signed ==> d =~= t.drop_first());
    assert(!signed ==> d =~= t);
    match parse_digits(s, start, hi) {
        Some(m) => {
            if c == '-' {
                if m > 9223372036854775808u64 {
                    None
                } else if m == 9223372036854775808u64 {
                    Some(i64::MIN)
                } else {
                    Some(-(m as i64))
                }
            } else if m > i64::MAX as u64 {
                None
            } else {
                Some(m as i64)
            }
        },
        None => {
            assert(!all_digits(d) || digits_value(d) > u64::MAX);
            None
        },
    }
}

/// Splits a `"<used>/<seen>"` field into its two counts.
///
/// Values are passed on as written, sign included; only the syntax is
/// checked.
pub fn parse_used_seen(v: &str) -> (r: Result<(i64, i64), MalformedField>)
    ensures
        r == (match used_seen_of(v@) {
            Some(p) => Ok(p),
            None => Err(MalformedField),
        }),
{
    let n = v.unicode_len();
    let slash = match find_in(v, 0, n, '/') {
        Some(i) => i,
        None => {
            assert(v@.subrange(0, n as int) =~= v@);
            return Err(MalformedField);
        },
    };
    assert(v@.subrange(0, n as int) =~= v@);
    proof {
        lemma_find_char_bounds(v@, '/');
    }
    let used = parse_i64(v, 0, slash);
    let seen = parse_i64(v, slash + 1, n);
    match (used, seen) {
        (Some(u), Some(s)) => Ok((u, s)),
        _ => Err(MalformedField),
    }
}

// Rendering of integers, the inverse of the parse above.

pub open spec fn digit_char(d: nat) -> char
    recommends
        d < 10,
{
    ('0' as nat + d) as char
}

/// Base-ten digits of `n`, without leading zeros.
pub open spec fn nat_text(n: nat) -> Seq<char>
    decreases n,
{
    if n < 10 {
        seq![digit_char(n)]
    } else {
        nat_text(n / 10).push(digit_char(n % 10))
    }
}

/// Base-ten text of `v`, with a leading `-` when negative.
pub open spec fn int_text(v: int) -> Seq<char> {
    if v < 0 {
        seq!['-'] + nat_text((-v) as nat)
    } else {
        nat_text(v as nat)
    }
}

/// The text `"<used>/<seen>"` for two counts.
pub open spec fn used_seen_text(used: int, seen: int) -> Seq<char> {
    int_text(used) + seq!['/'] + int_text(seen)
}

pub proof fn lemma_nat_text(n: nat)
    ensures
        nat_text(n).len() > 0,
        all_digits(nat_text(n)),
        digits_value(nat_text(n)) == n,
    decreases n,
{
    if n >= 10 {
        lemma_nat_text(n / 10);
        let t = nat_text(n);
        assert(t.drop_last() =~= nat_text(n / 10));
        assert(digit_value(digit_char(n % 10)) == n % 10);
        assert(n == (n / 10) * 10 + n % 10);
        assert(t.last() == digit_char(n % 10));
        assert(digits_value(t) == digits_value(t.drop_last()) * 10 + digit_value(t.last()));
    } else {
        let t = nat_text(n);
        assert(digit_value(digit_char(n)) == n);
        assert(t.drop_last() =~= Seq::<char>::empty());
        assert(digits_value(Seq::<char>::empty()) == 0);
        assert(digits_value(t) == digits_value(t.drop_last()) * 10 + digit_value(t.last()));
    }
}

pub proof fn lemma_int_text(v: int)
    ensures
        int_text_value(int_text(v)) == Some(v),
        forall|k: int| 0 <= k < int_text(v).len() ==> int_text(v)[k] != '/',
{
    lemma_nat_text(if v < 0 { (-v) as nat } else { v as nat });
    let t = int_text(v);
    if v < 0 {
        assert(t.drop_first() =~= nat_text((-v) as nat));
    } else {
        assert(is_digit(t[0]));
    }
}

/// Counts written out as `"<used>/<seen>"` parse back to the same counts.
pub proof fn lemma_used_seen_round_trip(used: i64, seen: i64)
    ensures
        used_seen_of(used_seen_text(used as int, seen as int)) == Some((used, seen)),
{
    let a = int_text(used as int);
    let b = int_text(seen as int);
    let s = used_seen_text(used as int, seen as int);
    lemma_int_text(used as int);
    lemma_int_text(seen as int);
    assert(s[a.len() as int] == '/');
    assert forall|k: int| 0 <= k < a.len() implies s[k] != '/' by {
        assert(s[k] == a[k]);
    }
    lemma_find_char_bounds(s, '/');
    let i = find_char(s, '/').unwrap();
    assert(i == a.len());
    assert(s.subrange(0, i) =~= a);
    assert(s.subrange(i + 1, s.len() as int) =~= b);
}

} // verus!
