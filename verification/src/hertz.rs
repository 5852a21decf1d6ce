//! Refresh rates as fixed-point values.

use crate::number::{
    all_digits, decimal, decimal_value, digit_char, digit_text, digit_value, is_digit,
    parse_digits, push_decimal, without_plus,
};
use crate::text::{find_char, offset_of};
use vstd::prelude::*;

verus! {

/// Two refresh rates closer than this many millihertz count as the same rate.
pub const TOLERANCE_MILLIS: u32 = 100;

/// A refresh rate, held in thousandths of a hertz.
#[derive(Clone, Copy, Debug, PartialEq, Eq, Structural)]
pub struct Hertz {
    pub millis: u32,
}

/// Distance between two rates, in millihertz.
pub open spec fn distance(a: Hertz, b: Hertz) -> int {
    if a.millis >= b.millis {
        a.millis - b.millis
    } else {
        b.millis - a.millis
    }
}

/// Whether two rates are within the matching tolerance of each other.
pub open spec fn close(a: Hertz, b: Hertz) -> bool {
    distance(a, b) < TOLERANCE_MILLIS
}

/// Closeness does not depend on the order of the two rates, every rate is
/// close to itself, and a rate is close to another exactly where it lies
/// strictly between the other less the tolerance and the other plus it.
pub proof fn lemma_close(a: Hertz, b: Hertz)
    ensures
        close(a, b) == close(b, a),
        close(a, a),
        close(a, b) <==> b.millis - TOLERANCE_MILLIS < a.millis < b.millis + TOLERANCE_MILLIS,
{
}

impl Hertz {
    /// The rate of `millis` thousandths of a hertz.
    pub fn from_millis(millis: u32) -> (hz: Hertz)
        ensures
            hz.millis == millis,
    {
        Hertz { millis }
    }

    /// Whether `self` and `other` differ by less than the tolerance.
    pub fn is_close_to(&self, other: &Hertz) -> (near: bool)
        ensures
            near == close(*self, *other),
    {
        let gap: u32 = if self.millis >= other.millis {
            self.millis - other.millis
        } else {
            other.millis - self.millis
        };
        gap < TOLERANCE_MILLIS
    }
}

/// `n / unit`, rounded to the nearest whole number, a tie going to the even neighbour.
pub open spec fn round_half_even(n: nat, unit: nat) -> nat
    recommends
        unit > 0,
{
    let quotient = n / unit;
    let rest = n % unit;
    if 2 * rest > unit || (2 * rest == unit && quotient % 2 == 1) {
        quotient + 1
    } else {
        quotient
    }
}

/// The digit at place `i` of `s`, or 0 where `s` ends before it.
pub open spec fn digit_at(s: Seq<char>, i: int) -> nat {
    if 0 <= i < s.len() {
        digit_value(s[i])
    } else {
        0
    }
}

/// The thousandths that the fraction digits `s` write; digits past the third are dropped.
pub open spec fn fraction_millis(s: Seq<char>) -> nat {
    digit_at(s, 0) * 100 + digit_at(s, 1) * 10 + digit_at(s, 2)
}

/// The rate that `s` writes: an optional `+`, digits, and optionally a point
/// and more digits, with a digit on at least one side of the point. Digits
/// past the third place after the point are dropped. `None` where `s` has
/// another form or the rate exceeds what `Hertz` holds.
pub open spec fn parse_hertz_spec(s: Seq<char>) -> Option<Hertz> {
    let body = without_plus(s);
    let point = offset_of(body, '.') as int;
    let whole = body.take(point);
    let fraction = if point < body.len() {
        body.skip(point + 1)
    } else {
        Seq::<char>::empty()
    };
    let millis = decimal_value(whole) * 1000 + fraction_millis(fraction);
    if whole.len() + fraction.len() > 0 && all_digits(whole) && all_digits(fraction) && millis
        <= u32::MAX {
        Some(Hertz { millis: millis as u32 })
    } else {
        None
    }
}

/// `rate` in whole hertz, as text.
pub open spec fn whole_text(rate: Hertz) -> Seq<char> {
    decimal(round_half_even(rate.millis as nat, 1000))
}

/// `rate` in hertz with two places after the point, as text.
pub open spec fn two_place_text(rate: Hertz) -> Seq<char> {
    let hundredths = round_half_even(rate.millis as nat, 10);
    decimal(hundredths / 100) + seq![
        '.',
        digit_char((hundredths / 10) % 10),
        digit_char(hundredths % 10),
    ]
}

/// The digit at place `i` of `s`: 0 past the end of `s`, and `None` for a
/// character that is no digit.
fn digit_or_zero(s: &[char], i: usize) -> (d: Option<u64>)
    ensures
        i < s.len() && !is_digit(s@[i as int]) ==> d is None,
        i < s.len() && is_digit(s@[i as int]) ==> d == Some(digit_at(s@, i as int) as u64),
        i >= s.len() ==> d == Some(0u64),
        d matches Some(v) ==> v <= 9,
{
    if i < s.len() {
        let code: u32 = s[i] as u32;
        if code < 0x30 || code > 0x39 {
            None
        } else {
            Some((code - 0x30) as u64)
        }
    } else {
        Some(0)
    }
}

/// Whether every character of `s` is a digit.
fn only_digits(s: &[char]) -> (yes: bool)
    ensures
        yes == all_digits(s@),
{
    let mut i: usize = 0;
    while i < s.len()
        invariant
            i <= s.len(),
            forall|j: int| 0 <= j < i ==> is_digit(#[trigger] s@[j]),
        decreases s.len() - i,
    {
        let code: u32 = s[i] as u32;
        if code < 0x30 || code > 0x39 {
            assert(!is_digit(s@[i as int]));
            return false;
        }
        i += 1;
    }
    true
}

/// Reads `s` as a refresh rate.
pub fn parse_hertz(s: &[char]) -> (rate: Option<Hertz>)
    ensures
        rate == parse_hertz_spec(s@),
{
    let start: usize = if s.len() > 0 && s[0] == '+' {
        1
    } else {
        0
    };
    let body = vstd::slice::slice_subrange(s, start, s.len());
    assert(body@ =~= without_plus(s@));
    let point: usize = find_char(body, '.');
    let whole = vstd::slice::slice_subrange(body, 0, point);
    let fraction = if point < body.len() {
        vstd::slice::slice_subrange(body, point + 1, body.len())
    } else {
        vstd::slice::slice_subrange(body, 0, 0)
    };
    assert(whole@ =~= body@.take(point as int));
    assert(fraction@ =~= if point < body.len() {
        body@.skip(point + 1)
    } else {
        Seq::<char>::empty()
    });
    if whole.len() == 0 && fraction.len() == 0 {
        return None;
    }
    if !only_digits(fraction) {
        return None;
    }
    let units: u64 = if whole.len() == 0 {
        assert(decimal_value(whole@) == 0);
        0
    } else {
        match parse_digits(whole, 0xFFFF_FFFF) {
            Some(n) => n,
            None => {
                return None;
            },
        }
    };
    let tenths: u64 = match digit_or_zero(fraction, 0) {
        Some(d) => d,
        None => {
            return None;
        },
    };
    let hundredths: u64 = match digit_or_zero(fraction, 1) {
        Some(d) => d,
        None => {
            return None;
        },
    };
    let thousandths: u64 = match digit_or_zero(fraction, 2) {
        Some(d) => d,
        None => {
            return None;
        },
    };
    let millis: u64 = units * 1000 + tenths * 100 + hundredths * 10 + thousandths;
    assert(millis == decimal_value(whole@) * 1000 + fraction_millis(fraction@));
    if millis > 0xFFFF_FFFF {
        return None;
    }
    Some(Hertz { millis: millis as u32 })
}

/// `n / unit`, rounded to the nearest whole number, a tie going to the even neighbour.
fn rounded(n: u64, unit: u64) -> (r: u64)
    requires
        0 < unit <= 1000,
        n <= u32::MAX,
    ensures
        r == round_half_even(n as nat, unit as nat),
{
    let quotient: u64 = n / unit;
    let rest: u64 = n % unit;
    if 2 * rest > unit || (2 * rest == unit && quotient % 2 == 1) {
        quotient + 1
    } else {
        quotient
    }
}

impl Hertz {
    /// Appends the rate in whole hertz to `out`.
    pub fn push_whole(&self, out: &mut String)
        ensures
            final(out)@ == old(out)@ + whole_text(*self),
    {
        push_decimal(out, rounded(self.millis as u64, 1000));
    }

    /// Appends the rate in hertz, with two places after the point, to `out`.
    pub fn push_two_places(&self, out: &mut String)
        ensures
            final(out)@ == old(out)@ + two_place_text(*self),
    {
        let hundredths: u64 = rounded(self.millis as u64, 10);
        push_decimal(out, hundredths / 100);
        proof {
            reveal_strlit(".");
        }
        out.append(".");
        out.append(digit_text((hundredths / 10) % 10));
        out.append(digit_text(hundredths % 10));
        assert(out@ =~= old(out)@ + two_place_text(*self));
    }
}

} // verus!
