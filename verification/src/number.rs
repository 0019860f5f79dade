//! Resolution of integer literals.
//!
//! A literal token is an optional minus sign fused to the literal, an
//! optional radix prefix (`0b`, `0o` or `0x`) and a non-empty run of digits
//! of that radix. Its value must fit a signed 64-bit integer.

use crate::diagnostics::DiagnosticKind;
use vstd::prelude::*;

verus! {

/// The byte `-`.
pub const MINUS: u8 = 45;

/// The byte `0`.
pub const ZERO: u8 = 48;

/// The value of the byte `b` as a digit, whatever the radix; 255 where the
/// byte is no digit or letter `a` to `f`.
pub open spec fn digit_of(b: u8) -> int {
    if 48 <= b <= 57 {
        b - 48
    } else if 97 <= b <= 102 {
        b - 87
    } else if 65 <= b <= 70 {
        b - 55
    } else {
        255
    }
}

/// The radix that the prefix of `body` selects: 2 after `0b`, 8 after `0o`,
/// 16 after `0x`, else 10.
pub open spec fn radix_of(body: Seq<u8>) -> int {
    if body.len() >= 2 && body[0] == ZERO {
        if body[1] == 98 {
            2
        } else if body[1] == 111 {
            8
        } else if body[1] == 120 {
            16
        } else {
            10
        }
    } else {
        10
    }
}

/// `digits` is a non-empty run of digits of `radix`.
pub open spec fn all_digits(digits: Seq<u8>, radix: int) -> bool {
    digits.len() > 0 && forall|i: int| 0 <= i < digits.len() ==> digit_of(#[trigger] digits[i]) < radix
}

/// The number that `digits` denotes in `radix`, most significant digit first.
pub open spec fn digits_value(digits: Seq<u8>, radix: int) -> int
    decreases digits.len(),
{
    if digits.len() == 0 {
        0
    } else {
        digits_value(digits.drop_last(), radix) * radix + digit_of(digits.last())
    }
}

/// Whether the token starts with a fused minus sign.
pub open spec fn is_negative(token: Seq<u8>) -> bool {
    token.len() > 0 && token[0] == MINUS
}

/// The token without its sign.
pub open spec fn body_of(token: Seq<u8>) -> Seq<u8> {
    if is_negative(token) {
        token.skip(1)
    } else {
        token
    }
}

/// The digits of the token: what follows the sign and the radix prefix.
pub open spec fn digits_of(token: Seq<u8>) -> Seq<u8> {
    let body = body_of(token);
    if radix_of(body) == 10 {
        body
    } else {
        body.skip(2)
    }
}

/// The token is a well-formed integer literal.
pub open spec fn well_formed(token: Seq<u8>) -> bool {
    all_digits(digits_of(token), radix_of(body_of(token)))
}

/// The integer that a well-formed token denotes, sign included.
pub open spec fn signed_value(token: Seq<u8>) -> int {
    let magnitude = digits_value(digits_of(token), radix_of(body_of(token)));
    if is_negative(token) {
        -magnitude
    } else {
        magnitude
    }
}

/// What resolving the token gives: its value, or why it has none.
pub open spec fn number_value(token: Seq<u8>) -> Result<i64, DiagnosticKind> {
    if !well_formed(token) {
        Err(DiagnosticKind::BadNumberLiteral)
    } else if signed_value(token) < i64::MIN || signed_value(token) > i64::MAX {
        Err(DiagnosticKind::BadNumberOutOfBounds)
    } else {
        Ok(signed_value(token) as i64)
    }
}

/// A well-formed literal is accepted exactly when its value lies between
/// the least and the greatest signed 64-bit integer, both included; it then
/// resolves to that value, and otherwise it is out of bounds.
pub proof fn lemma_bounds_are_exact(token: Seq<u8>)
    requires
        well_formed(token),
    ensures
        number_value(token) is Ok <==> -0x8000_0000_0000_0000 <= signed_value(token)
            <= 0x7fff_ffff_ffff_ffff,
        number_value(token) matches Ok(v) ==> v == signed_value(token),
        number_value(token) matches Err(kind) ==> kind == DiagnosticKind::BadNumberOutOfBounds,
{
}

/// A run of digits never denotes less after one more digit is appended.
proof fn lemma_digits_grow(digits: Seq<u8>, radix: int, n: int)
    requires
        2 <= radix,
        0 <= n < digits.len(),
        forall|i: int| 0 <= i < digits.len() ==> 0 <= digit_of(#[trigger] digits[i]),
    ensures
        digits_value(digits.take(n + 1), radix) == digits_value(digits.take(n), radix) * radix
            + digit_of(digits[n]),
        0 <= digits_value(digits.take(n), radix) <= digits_value(digits.take(n + 1), radix),
    decreases n,
{
    assert(digits.take(n + 1).drop_last() =~= digits.take(n));
    assert(digits.take(n + 1).last() == digits[n]);
    if n > 0 {
        lemma_digits_grow(digits, radix, n - 1);
    }
    let v = digits_value(digits.take(n), radix);
    assert(0 <= v);
    assert(v <= v * radix) by (nonlinear_arith)
        requires
            0 <= v,
            2 <= radix,
    ;
}

/// The value of `b` as a digit of `radix`, if it is one.
fn digit(b: u8, radix: u8) -> (d: Option<u8>)
    requires
        2 <= radix <= 16,
    ensures
        d matches Some(v) ==> v == digit_of(b) && v < radix,
        d is None ==> digit_of(b) >= radix,
{
    let v: u8 = if 48 <= b && b <= 57 {
        b - 48
    } else if 97 <= b && b <= 102 {
        b - 87
    } else if 65 <= b && b <= 70 {
        b - 55
    } else {
        255
    };
    if v < radix {
        Some(v)
    } else {
        None
    }
}

/// Resolves an integer literal token to its value.
///
/// The token is rejected as `BadNumberLiteral` when it is not well formed,
/// and as `BadNumberOutOfBounds` when it is well formed and its value does
/// not fit a signed 64-bit integer.
pub fn parse_number(token: &[u8]) -> (result: Result<i64, DiagnosticKind>)
    ensures
        result == number_value(token@),
{
    let len = token.len();
    let negative = len > 0 && token[0] == MINUS;
    let body: usize = if negative {
        1
    } else {
        0
    };
    let mut radix: u8 = 10;
    let mut first: usize = body;
    if len - body >= 2 && token[body] == ZERO {
        let mark = token[body + 1];
        if mark == 98 {
            radix = 2;
        } else if mark == 111 {
            radix = 8;
        } else if mark == 120 {
            radix = 16;
        }
        if radix != 10 {
            first = body + 2;
        }
    }
    let ghost digits = token@.skip(first as int);
    assert(body_of(token@) =~= token@.skip(body as int));
    assert(radix_of(body_of(token@)) == radix);
    assert(digits_of(token@) =~= digits);
    if first == len {
        return Err(DiagnosticKind::BadNumberLiteral);
    }
    let mut magnitude: u64 = 0;
    let mut over = false;
    let mut i: usize = first;
    while i < len
        invariant
            first <= i <= len,
            len == token@.len(),
            2 <= radix <= 16,
            digits == token@.skip(first as int),
            digits == digits_of(token@),
            radix == radix_of(body_of(token@)),
            forall|j: int| 0 <= j < i - first ==> digit_of(#[trigger] digits[j]) < radix,
            magnitude <= 0x8000_0000_0000_0000,
            !over ==> magnitude == digits_value(digits.take(i - first), radix as int),
            over ==> digits_value(digits.take(i - first), radix as int) > 0x8000_0000_0000_0000,
        decreases len - i,
    {
        let d = match digit(token[i], radix) {
            Some(d) => d,
            None => {
                assert(digit_of(digits[i - first]) >= radix);
                return Err(DiagnosticKind::BadNumberLiteral);
            },
        };
        proof {
            assert(digits[i - first] == token@[i as int]);
            assert forall|j: int| 0 <= j < digits.take(i - first + 1).len() implies 0 <= digit_of(
                #[trigger] digits.take(i - first + 1)[j],
            ) by {}
            lemma_digits_grow(digits.take(i - first + 1), radix as int, i - first);
            assert(digits.take(i - first + 1).take(i - first) =~= digits.take(i - first));
            assert(digits.take(i - first + 1).take(i - first + 1) =~= digits.take(i - first + 1));
        }
        if !over {
            assert(magnitude * radix <= 0x8000_0000_0000_0000 * 16) by (nonlinear_arith)
                requires
                    magnitude <= 0x8000_0000_0000_0000,
                    radix <= 16,
            ;
            let next: u128 = (magnitude as u128) * (radix as u128) + (d as u128);
            if next > 0x8000_0000_0000_0000 {
                over = true;
            } else {
                magnitude = next as u64;
            }
        }
        i += 1;
    }
    assert(digits.take(len - first) =~= digits);
    assert(all_digits(digits, radix as int));
    if over {
        return Err(DiagnosticKind::BadNumberOutOfBounds);
    }
    if negative {
        if magnitude == 0x8000_0000_0000_0000 {
            Ok(i64::MIN)
        } else {
            Ok(-(magnitude as i64))
        }
    } else if magnitude == 0x8000_0000_0000_0000 {
        Err(DiagnosticKind::BadNumberOutOfBounds)
    } else {
        Ok(magnitude as i64)
    }
}

} // verus!
