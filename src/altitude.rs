//! Decimal numbers with an optional unit suffix.
use vstd::prelude::*;
use crate::text::{all_digits, all_digits_in, find_char, find_in, lemma_find_char_bounds};

verus! {

/// The text with one trailing `" m"` unit suffix removed, if it has one.
pub open spec fn strip_unit(s: Seq<char>) -> Seq<char> {
    if s.len() >= 2 && s.subrange(s.len() - 2, s.len() as int) == seq![' ', 'm'] {
        s.subrange(0, s.len() - 2)
    } else {
        s
    }
}

/// Whether `s` starts with a sign character.
pub open spec fn has_sign(s: Seq<char>) -> bool {
    s.len() > 0 && (s[0] == '-' || s[0] == '+')
}

/// Whether `s` writes a decimal number `[+-]<digits>[.<digits>]`, with at
/// least one digit in all and any number of digits on either side.
pub open spec fn is_decimal(s: Seq<char>) -> bool {
    let body = if has_sign(s) {
        s.drop_first()
    } else {
        s
    };
    let int_part = match find_char(body, '.') {
        Some(p) => body.subrange(0, p),
        None => body,
    };
    let frac_part = match find_char(body, '.') {
        Some(p) => body.subrange(p + 1, body.len() as int),
        None => Seq::<char>::empty(),
    };
    int_part.len() + frac_part.len() > 0 && all_digits(int_part) && all_digits(frac_part)
}

/// The decimal text of an altitude: the field without its `" m"` suffix,
/// where that is a decimal number.
pub open spec fn altitude_of(s: Seq<char>) -> Option<Seq<char>> {
    if is_decimal(strip_unit(s)) {
        Some(strip_unit(s))
    } else {
        None
    }
}

/// Whether `s[lo..hi]` writes a decimal number.
pub fn is_decimal_in(s: &str, lo: usize, hi: usize) -> (r: bool)
    requires
        lo <= hi <= s@.len(),
    ensures
        r == is_decimal(s@.subrange(lo as int, hi as int)),
{
    let ghost t = s@.subrange(lo as int, hi as int);
    let signed = lo < hi && (s.get_char(lo) == '-' || s.get_char(lo) == '+');
    let start: usize = if signed { lo + 1 } else { lo };
    let ghost body = s@.subrange(start as int, hi as int);
    assert(signed == has_sign(t));
    assert(signed ==> body =~= t.drop_first());
    assert(!signed ==> body =~= t);
    let dot = find_in(s, start, hi, '.');
    proof {
        lemma_find_char_bounds(body, '.');
    }
    let (int_hi, frac_lo) = match dot {
        Some(d) => {
            assert(body.subrange(0, d - start) =~= s@.subrange(start as int, d as int));
            assert(body.subrange(d - start + 1, body.len() as int) =~= s@.subrange(
                d + 1,
                hi as int,
            ));
            (d, d + 1)
        },
        None => {
            assert(s@.subrange(hi as int, hi as int) =~= Seq::<char>::empty());
            (hi, hi)
        },
    };
    (int_hi - start) + (hi - frac_lo) > 0 && all_digits_in(s, start, int_hi) && all_digits_in(
        s,
        frac_lo,
        hi,
    )
}

/// Decodes an altitude such as `"123.4 m"` or `"123.4"` into its decimal
/// text (`"123.4"`), kept digit for digit.
pub fn parse_altitude(v: &str) -> (r: Option<String>)
    ensures
        match altitude_of(v@) {
            Some(t) => r matches Some(a) && a@ == t,
            None => r is None,
        },
{
    let n = v.unicode_len();
    let mut end = n;
    if n >= 2 && v.get_char(n - 2) == ' ' && v.get_char(n - 1) == 'm' {
        assert(v@.subrange(n - 2, n as int) =~= seq![' ', 'm']);
        end = n - 2;
    } else if n >= 2 {
        assert(v@.subrange(n - 2, n as int)[0] == v@[n - 2]);
        assert(v@.subrange(n - 2, n as int)[1] == v@[n - 1]);
        assert(v@.subrange(0, n as int) =~= v@);
    } else {
        assert(v@.subrange(0, n as int) =~= v@);
    }
    if is_decimal_in(v, 0, end) {
        Some(v.substring_char(0, end).to_owned())
    } else {
        None
    }
}

} // verus!
