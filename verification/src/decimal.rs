//! The notation in which a field may give a number.
//!
//! A field is a decimal literal if its bytes read
//!
//! ```text
//! literal  ::= sign? mantissa exponent?
//! mantissa ::= digit+ | digit+ '.' digit* | digit* '.' digit+
//! exponent ::= ('e' | 'E') sign? digit+
//! sign     ::= '+' | '-'
//! digit    ::= '0' ... '9'
//! ```
//!
//! and nothing else: no blanks, no separators of thousands, no unit or
//! currency, no names of special values, and not the empty text.

use vstd::prelude::*;
use vstd::utf8::encode_utf8;

verus! {

pub const PLUS: u8 = 0x2b;

pub const MINUS: u8 = 0x2d;

pub const POINT: u8 = 0x2e;

pub const DIGIT_ZERO: u8 = 0x30;

pub const DIGIT_NINE: u8 = 0x39;

pub const UPPER_E: u8 = 0x45;

pub const LOWER_E: u8 = 0x65;

pub open spec fn is_digit(b: u8) -> bool {
    DIGIT_ZERO <= b <= DIGIT_NINE
}

pub open spec fn is_sign(b: u8) -> bool {
    b == PLUS || b == MINUS
}

pub open spec fn is_exponent_mark(b: u8) -> bool {
    b == LOWER_E || b == UPPER_E
}

/// Whether `s` holds digits only from `from` up to, not including, `to`.
pub open spec fn digits_between(s: Seq<u8>, from: int, to: int) -> bool {
    forall|i: int| from <= i < to ==> is_digit(#[trigger] s[i])
}

/// Whether `s` from `at` to its end is an exponent: a mark, then a sign or
/// none, then one digit or more.
pub open spec fn exponent_at(s: Seq<u8>, at: int) -> bool {
    let first = if at + 1 < s.len() && is_sign(s[at + 1]) {
        at + 2
    } else {
        at + 1
    };
    &&& 0 <= at < s.len()
    &&& is_exponent_mark(s[at])
    &&& first < s.len()
    &&& digits_between(s, first, s.len() as int)
}

/// Whether `s` is a decimal literal whose sign ends at `a`, whose digits
/// before the point end at `b`, and whose mantissa ends at `c`.
pub open spec fn splits_as_decimal(s: Seq<u8>, a: int, b: int, c: int) -> bool {
    &&& 0 <= a <= b <= c <= s.len()
    &&& (a == 0 || (a == 1 && is_sign(s[0])))
    &&& digits_between(s, a, b)
    &&& (c == b || (s[b] == POINT && digits_between(s, b + 1, c)))
    &&& (b - a) + (if c > b {
        c - b - 1
    } else {
        0
    }) >= 1
    &&& (c == s.len() || exponent_at(s, c))
}

/// Whether the bytes are a decimal literal.
pub open spec fn is_decimal(s: Seq<u8>) -> bool {
    exists|a: int, b: int, c: int| splits_as_decimal(s, a, b, c)
}

/// Whether a text, encoded as UTF-8, is a decimal literal.
pub open spec fn is_decimal_text(text: Seq<char>) -> bool {
    is_decimal(encode_utf8(text))
}

/// A literal splits in one way only: the sign is taken where there is one,
/// and each run of digits ends where the digits end.
proof fn split_is_forced(s: Seq<u8>, a: int, b: int, c: int, a2: int, b2: int, c2: int)
    requires
        a == (if s.len() > 0 && is_sign(s[0]) {
            1int
        } else {
            0int
        }),
        a <= b <= c <= s.len(),
        digits_between(s, a, b),
        b == s.len() || !is_digit(s[b]),
        b < s.len() && s[b] == POINT ==> b + 1 <= c && digits_between(s, b + 1, c) && (c == s.len()
            || !is_digit(s[c])),
        !(b < s.len() && s[b] == POINT) ==> c == b,
        splits_as_decimal(s, a2, b2, c2),
    ensures
        a2 == a,
        b2 == b,
        c2 == c,
{
    if a2 != a {
        if a == 1 {
            assert(a2 == 0);
            if b2 > 0 {
                assert(is_digit(s[0]));
            }
        }
        assert(false);
    }
    if b2 > b {
        assert(is_digit(s[b]));
    }
    if b2 < b {
        assert(is_digit(s[b2]));
    }
    assert(b2 == b);
    if c2 > c {
        assert(is_digit(s[c]));
    }
    if c2 < c {
        if c2 > b {
            assert(is_digit(s[c2]));
        }
    }
}

/// Finds where the digits that start at `from` end.
fn digits_end(bytes: &[u8], from: usize) -> (end: usize)
    requires
        from <= bytes@.len(),
    ensures
        from <= end <= bytes@.len(),
        digits_between(bytes@, from as int, end as int),
        end == bytes@.len() || !is_digit(bytes@[end as int]),
{
    let mut end: usize = from;
    while end < bytes.len() && DIGIT_ZERO <= bytes[end] && bytes[end] <= DIGIT_NINE
        invariant
            from <= end <= bytes@.len(),
            digits_between(bytes@, from as int, end as int),
        decreases bytes@.len() - end,
    {
        end = end + 1;
    }
    end
}

/// Tells whether the bytes are a decimal literal.
pub fn is_decimal_bytes(bytes: &[u8]) -> (r: bool)
    ensures
        r == is_decimal(bytes@),
{
    let n: usize = bytes.len();
    let a: usize = if n > 0 && (bytes[0] == PLUS || bytes[0] == MINUS) {
        1
    } else {
        0
    };
    let b: usize = digits_end(bytes, a);
    let c: usize = if b < n && bytes[b] == POINT {
        digits_end(bytes, b + 1)
    } else {
        b
    };
    let digits: usize = (b - a) + (if c > b {
        c - b - 1
    } else {
        0
    });
    let accepted: bool = if digits == 0 {
        false
    } else if c == n {
        true
    } else if bytes[c] != LOWER_E && bytes[c] != UPPER_E {
        false
    } else {
        let first: usize = if c + 1 < n && (bytes[c + 1] == PLUS || bytes[c + 1] == MINUS) {
            c + 2
        } else {
            c + 1
        };
        first < n && digits_end(bytes, first) == n
    };
    proof {
        let s = bytes@;
        if accepted {
            assert(splits_as_decimal(s, a as int, b as int, c as int));
        } else {
            assert forall|a2: int, b2: int, c2: int| !splits_as_decimal(s, a2, b2, c2) by {
                if splits_as_decimal(s, a2, b2, c2) {
                    split_is_forced(s, a as int, b as int, c as int, a2, b2, c2);
                }
            }
        }
    }
    accepted
}

/// Tells whether a text is a decimal literal.
pub fn is_decimal_literal(text: &str) -> (r: bool)
    ensures
        r == is_decimal_text(text@),
{
    is_decimal_bytes(text.as_bytes())
}

} // verus!
