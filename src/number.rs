//! Numbers of the language, held as the bit pattern of an IEEE-754 binary64
//! value. Everything the language decides about a number (is it zero, are two
//! numbers equal, which is smaller) is computed here from the bits.

use vstd::prelude::*;
use crate::text::{chars_of, push_char};

verus! {

/// The sign bit of a binary64 bit pattern.
pub const SIGN_BIT: u64 = 0x8000_0000_0000_0000;

/// The bit pattern of positive infinity; larger magnitudes are NaNs.
pub const INFINITY_BITS: u64 = 0x7ff0_0000_0000_0000;

/// A number of the language: a binary64 value given by its bits.
/// `==` on this type compares bit patterns; the language's own equality is
/// `Number::equals`.
#[derive(Clone, Copy, Debug, PartialEq, Eq, Structural)]
pub struct Number {
    pub bits: u64,
}

impl Number {
    pub open spec fn is_negative(self) -> bool {
        self.bits >= SIGN_BIT
    }

    /// The bits without the sign bit.
    pub open spec fn magnitude(self) -> u64 {
        if self.is_negative() {
            (self.bits - SIGN_BIT) as u64
        } else {
            self.bits
        }
    }

    pub open spec fn is_nan_spec(self) -> bool {
        self.magnitude() > INFINITY_BITS
    }

    /// Positive or negative zero.
    pub open spec fn is_zero_spec(self) -> bool {
        self.magnitude() == 0
    }

    /// For values that are not NaN, the order of `key` is the order of the
    /// values; both zeros have key 0.
    pub open spec fn key(self) -> int {
        if self.is_negative() {
            -(self.magnitude() as int)
        } else {
            self.magnitude() as int
        }
    }

    /// Floating-point equality: NaN equals nothing, and the two zeros are equal.
    pub open spec fn equals_spec(self, other: Number) -> bool {
        !self.is_nan_spec() && !other.is_nan_spec() && self.key() == other.key()
    }

    /// Floating-point `<`: false as soon as a NaN is involved.
    pub open spec fn less_spec(self, other: Number) -> bool {
        !self.is_nan_spec() && !other.is_nan_spec() && self.key() < other.key()
    }

    /// Floating-point `<=`: false as soon as a NaN is involved.
    pub open spec fn less_equal_spec(self, other: Number) -> bool {
        !self.is_nan_spec() && !other.is_nan_spec() && self.key() <= other.key()
    }

    /// Negation flips the sign bit and nothing else.
    pub open spec fn negated(self) -> Number {
        if self.is_negative() {
            Number { bits: (self.bits - SIGN_BIT) as u64 }
        } else {
            Number { bits: (self.bits + SIGN_BIT) as u64 }
        }
    }

    pub fn from_bits(bits: u64) -> (r: Number)
        ensures
            r.bits == bits,
    {
        Number { bits }
    }

    pub fn to_bits(&self) -> (r: u64)
        ensures
            r == self.bits,
    {
        self.bits
    }

    fn magnitude_exec(&self) -> (r: u64)
        ensures
            r == self.magnitude(),
    {
        if self.bits >= SIGN_BIT {
            self.bits - SIGN_BIT
        } else {
            self.bits
        }
    }

    fn key_exec(&self) -> (r: i128)
        ensures
            r as int == self.key(),
    {
        let m = self.magnitude_exec();
        if self.bits >= SIGN_BIT {
            -(m as i128)
        } else {
            m as i128
        }
    }

    pub fn is_nan(&self) -> (r: bool)
        ensures
            r == self.is_nan_spec(),
    {
        self.magnitude_exec() > INFINITY_BITS
    }

    pub fn is_zero(&self) -> (r: bool)
        ensures
            r == self.is_zero_spec(),
    {
        self.magnitude_exec() == 0
    }

    pub fn equals(&self, other: &Number) -> (r: bool)
        ensures
            r == self.equals_spec(*other),
    {
        !self.is_nan() && !other.is_nan() && self.key_exec() == other.key_exec()
    }

    pub fn less_than(&self, other: &Number) -> (r: bool)
        ensures
            r == self.less_spec(*other),
    {
        !self.is_nan() && !other.is_nan() && self.key_exec() < other.key_exec()
    }

    pub fn less_equal(&self, other: &Number) -> (r: bool)
        ensures
            r == self.less_equal_spec(*other),
    {
        !self.is_nan() && !other.is_nan() && self.key_exec() <= other.key_exec()
    }

    pub fn negate(&self) -> (r: Number)
        ensures
            r == self.negated(),
    {
        if self.bits >= SIGN_BIT {
            Number { bits: self.bits - SIGN_BIT }
        } else {
            Number { bits: self.bits + SIGN_BIT }
        }
    }
}

/// The index of the first `.` at or after `k`, or the length.
pub open spec fn dot_position(s: Seq<char>, k: int) -> int
    decreases s.len() - k,
{
    if k >= s.len() {
        s.len() as int
    } else if s[k] == '.' {
        k
    } else {
        dot_position(s, k + 1)
    }
}

pub open spec fn without_leading_zeros(s: Seq<char>) -> Seq<char>
    decreases s.len(),
{
    if s.len() > 0 && s[0] == '0' {
        without_leading_zeros(s.drop_first())
    } else {
        s
    }
}

pub open spec fn without_trailing_zeros(s: Seq<char>) -> Seq<char>
    decreases s.len(),
{
    if s.len() > 0 && s.last() == '0' {
        without_trailing_zeros(s.drop_last())
    } else {
        s
    }
}

/// The natural decimal form of a number literal: the whole part without
/// leading zeros (a single zero if nothing is left), then, if the fraction
/// keeps a digit once its trailing zeros are gone, a `.` and that fraction.
pub open spec fn natural_form(text: Seq<char>) -> Seq<char> {
    let d = dot_position(text, 0);
    let whole = without_leading_zeros(text.subrange(0, d));
    let fraction = if d < text.len() {
        without_trailing_zeros(text.subrange(d + 1, text.len() as int))
    } else {
        Seq::<char>::empty()
    };
    (if whole.len() == 0 {
        seq!['0']
    } else {
        whole
    }) + (if fraction.len() > 0 {
        seq!['.'] + fraction
    } else {
        Seq::<char>::empty()
    })
}

fn push_range(out: &mut String, cs: &Vec<char>, from: usize, to: usize)
    requires
        from <= to <= cs@.len(),
    ensures
        final(out)@ == old(out)@ + cs@.subrange(from as int, to as int),
{
    let mut k = from;
    while k < to
        invariant
            from <= k <= to <= cs@.len(),
            out@ == old(out)@ + cs@.subrange(from as int, k as int),
        decreases to - k,
    {
        push_char(out, cs[k]);
        k = k + 1;
        assert(out@ =~= old(out)@ + cs@.subrange(from as int, k as int));
    }
}

/// The natural decimal form of the number literal `text`.
pub fn natural_form_of(text: &String) -> (r: String)
    ensures
        r@ == natural_form(text@),
{
    let cs = chars_of(text.as_str());
    let ghost s = cs@;
    let n = cs.len();
    let mut d: usize = 0;
    while d < n && cs[d] != '.'
        invariant
            d <= n == s.len(),
            cs@ == s,
            dot_position(s, 0) == dot_position(s, d as int),
        decreases n - d,
    {
        d = d + 1;
    }
    let mut a: usize = 0;
    while a < d && cs[a] == '0'
        invariant
            a <= d <= n == s.len(),
            cs@ == s,
            without_leading_zeros(s.subrange(0, d as int)) == without_leading_zeros(
                s.subrange(a as int, d as int),
            ),
        decreases d - a,
    {
        assert(s.subrange(a as int, d as int).drop_first() =~= s.subrange(a + 1, d as int));
        a = a + 1;
    }
    let mut out = String::new();
    if a == d {
        push_char(&mut out, '0');
    } else {
        push_range(&mut out, &cs, a, d);
    }
    if d < n {
        let mut e: usize = n;
        while e > d + 1 && cs[e - 1] == '0'
            invariant
                d < n == s.len(),
                cs@ == s,
                d + 1 <= e <= n,
                without_trailing_zeros(s.subrange(d + 1, n as int)) == without_trailing_zeros(
                    s.subrange(d + 1, e as int),
                ),
            decreases e,
        {
            assert(s.subrange(d + 1, e as int).drop_last() =~= s.subrange(d + 1, e - 1));
            e = e - 1;
        }
        if e > d + 1 {
            push_char(&mut out, '.');
            push_range(&mut out, &cs, d + 1, e);
        }
        assert(out@ =~= natural_form(s));
    } else {
        assert(out@ =~= natural_form(s));
    }
    out
}

} // verus!
