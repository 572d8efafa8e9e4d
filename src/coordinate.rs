//! Hemisphere-prefixed coordinates in degrees and decimal minutes.
use vstd::prelude::*;
use crate::ratio::MalformedField;
use crate::text::{all_digits, all_digits_in, find_char, find_in, lemma_find_char_bounds};

verus! {

/// A signed angle written as degrees followed by decimal minutes.
///
/// `degrees` holds one or more ASCII digits; `minutes` holds two digits, a
/// decimal point and zero or more digits, such as `"15.12345"`. The digits
/// are kept exactly as the receiver sent them, however many there are. The
/// angle in decimal degrees is `±(degrees + minutes / 60)`.
#[derive(Clone, Debug, PartialEq, Eq)]
pub struct Coordinate {
    pub negative: bool,
    pub degrees: String,
    pub minutes: String,
}

impl View for Coordinate {
    type V = (bool, Seq<char>, Seq<char>);

    open spec fn view(&self) -> (bool, Seq<char>, Seq<char>) {
        (self.negative, self.degrees@, self.minutes@)
    }
}

/// The sign of a hemisphere token: +1 for `N` and `E`, -1 for `S` and `W`.
pub open spec fn hemisphere_sign_of(t: Seq<char>) -> Option<i8> {
    if t == seq!['N'] || t == seq!['E'] {
        Some(1i8)
    } else if t == seq!['S'] || t == seq!['W'] {
        Some(-1i8)
    } else {
        None
    }
}

/// North and east count positive, south and west negative, and every other
/// token is refused.
pub proof fn lemma_hemisphere_signs(t: Seq<char>)
    ensures
        hemisphere_sign_of(seq!['N']) == Some(1i8),
        hemisphere_sign_of(seq!['E']) == Some(1i8),
        hemisphere_sign_of(seq!['S']) == Some(-1i8),
        hemisphere_sign_of(seq!['W']) == Some(-1i8),
        t != seq!['N'] && t != seq!['E'] && t != seq!['S'] && t != seq!['W']
            ==> hemisphere_sign_of(t) is None,
{
    let (n, e, s, w) = (seq!['N'], seq!['E'], seq!['S'], seq!['W']);
    assert(n[0] == 'N' && e[0] == 'E' && s[0] == 'S' && w[0] == 'W');
    assert(s != n && s != e && w != n && w != e);
}

/// The coordinate written by `"<hemisphere> <value>"`, as its sign, its
/// degree digits and its minutes text.
///
/// The value's integer part ends with two digits of minutes; the digits
/// before them are the degrees (at least one), and the digits after the
/// decimal point are the fraction of the minutes.
pub open spec fn coordinate_of(s: Seq<char>) -> Option<(bool, Seq<char>, Seq<char>)> {
    match find_char(s, ' ') {
        None => None,
        Some(i) => {
            let val = s.subrange(i + 1, s.len() as int);
            match (hemisphere_sign_of(s.subrange(0, i)), find_char(val, '.')) {
                (Some(sign), Some(p)) => if p >= 3 && all_digits(val.subrange(0, p - 2))
                    && all_digits(val.subrange(p - 2, p)) && all_digits(
                    val.subrange(p + 1, val.len() as int),
                ) {
                    Some((sign < 0, val.subrange(0, p - 2), val.subrange(p - 2, val.len() as int)))
                } else {
                    None
                },
                _ => None,
            }
        },
    }
}

fn sign_in(s: &str, lo: usize, hi: usize) -> (r: Option<i8>)
    requires
        lo <= hi <= s@.len(),
    ensures
        r == hemisphere_sign_of(s@.subrange(lo as int, hi as int)),
{
    let ghost t = s@.subrange(lo as int, hi as int);
    if hi - lo != 1 {
        assert(t.len() != 1);
        assert(t != seq!['N'] && t != seq!['E'] && t != seq!['S'] && t != seq!['W']);
        return None;
    }
    let c = s.get_char(lo);
    assert(t =~= seq![c]);
    if c == 'N' || c == 'E' {
        assert(t == seq!['N'] || t == seq!['E']);
        Some(1)
    } else if c == 'S' || c == 'W' {
        assert(t[0] == c);
        assert(seq!['N'][0] == 'N' && seq!['E'][0] == 'E');
        assert(t == seq!['S'] || t == seq!['W']);
        Some(-1)
    } else {
        assert(t[0] == c);
        assert(seq!['N'][0] == 'N' && seq!['E'][0] == 'E');
        assert(seq!['S'][0] == 'S' && seq!['W'][0] == 'W');
        None
    }
}

/// The sign that a hemisphere token gives a coordinate.
pub fn hemisphere_sign(token: &str) -> (r: Result<i8, MalformedField>)
    ensures
        r == (match hemisphere_sign_of(token@) {
            Some(v) => Ok(v),
            None => Err(MalformedField),
        }),
{
    let n = token.unicode_len();
    assert(token@.subrange(0, n as int) =~= token@);
    match sign_in(token, 0, n) {
        Some(v) => Ok(v),
        None => Err(MalformedField),
    }
}

/// Decodes a `"<hemisphere> <degrees><minutes>.<fraction>"` coordinate,
/// such as `"N 4915.12345"` (49 degrees, 15.12345 minutes north).
pub fn parse_lat_long(v: &str) -> (r: Result<Coordinate, MalformedField>)
    ensures
        match coordinate_of(v@) {
            Some(c) => r matches Ok(x) && x@ == c,
            None => r is Err,
        },
{
    let n = v.unicode_len();
    assert(v@.subrange(0, n as int) =~= v@);
    let space = match find_in(v, 0, n, ' ') {
        Some(i) => i,
        None => return Err(MalformedField),
    };
    proof {
        lemma_find_char_bounds(v@, ' ');
    }
    let ghost val = v@.subrange(space + 1, n as int);
    let sign = sign_in(v, 0, space);
    let dot = find_in(v, space + 1, n, '.');
    let (sign, dot) = match (sign, dot) {
        (Some(sign), Some(dot)) => (sign, dot),
        _ => return Err(MalformedField),
    };
    proof {
        lemma_find_char_bounds(val, '.');
    }
    if dot - (space + 1) < 3 {
        return Err(MalformedField);
    }
    let ghost p = dot - (space + 1);
    assert(val.subrange(0, p - 2) =~= v@.subrange(space + 1, dot - 2));
    assert(val.subrange(p - 2, p) =~= v@.subrange(dot - 2, dot as int));
    assert(val.subrange(p + 1, val.len() as int) =~= v@.subrange(dot + 1, n as int));
    assert(val.subrange(p - 2, val.len() as int) =~= v@.subrange(dot - 2, n as int));
    if all_digits_in(v, space + 1, dot - 2) && all_digits_in(v, dot - 2, dot) && all_digits_in(
        v,
        dot + 1,
        n,
    ) {
        let degrees = v.substring_char(space + 1, dot - 2).to_owned();
        let minutes = v.substring_char(dot - 2, n).to_owned();
        Ok(Coordinate { negative: sign < 0, degrees, minutes })
    } else {
        Err(MalformedField)
    }
}

} // verus!
