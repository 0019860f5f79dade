//! Resolution of string and byte string literals.
//!
//! A string literal is its content between two double quotes; a byte string
//! literal carries a `b` in front of the opening quote. The content holds
//! no raw double quote, and a backslash starts an escape: `\\`, `\"`, `\'`,
//! `\n`, `\r`, `\t`, `\0`, or `\x` with two hexadecimal digits.

use crate::diagnostics::DiagnosticKind;
use crate::number::digit_of;
use vstd::prelude::*;

verus! {

/// The byte `"`.
pub const QUOTE: u8 = 34;

/// The byte `\`.
pub const BACKSLASH: u8 = 92;

/// The byte `b`.
pub const BYTE_PREFIX: u8 = 98;

/// The byte `x`.
pub const HEX_ESCAPE: u8 = 120;

/// The byte that the escape letter `letter` stands for, if it is one of the
/// single-letter escapes.
pub open spec fn escape_of(letter: u8) -> Option<u8> {
    if letter == BACKSLASH || letter == QUOTE || letter == 39 {
        Some(letter)
    } else if letter == 110 {
        Some(10u8)
    } else if letter == 114 {
        Some(13u8)
    } else if letter == 116 {
        Some(9u8)
    } else if letter == 48 {
        Some(0u8)
    } else {
        None
    }
}

/// `head` followed by what `tail` decodes to, or the error of `tail`.
pub open spec fn followed_by(head: Seq<u8>, tail: Result<Seq<u8>, DiagnosticKind>) -> Result<
    Seq<u8>,
    DiagnosticKind,
> {
    match tail {
        Ok(rest) => Ok(head + rest),
        Err(kind) => Err(kind),
    }
}

/// The bytes that the content of a literal stands for, escapes decoded.
///
/// The leftmost fault decides the error: a raw double quote gives
/// `malformed`, a backslash without a known escape gives `BadEscape`.
pub open spec fn decoded(content: Seq<u8>, malformed: DiagnosticKind) -> Result<
    Seq<u8>,
    DiagnosticKind,
>
    decreases content.len(),
{
    if content.len() == 0 {
        Ok(Seq::empty())
    } else if content[0] == QUOTE {
        Err(malformed)
    } else if content[0] != BACKSLASH {
        followed_by(seq![content[0]], decoded(content.skip(1), malformed))
    } else if content.len() < 2 {
        Err(DiagnosticKind::BadEscape)
    } else if content[1] == HEX_ESCAPE {
        if content.len() >= 4 && digit_of(content[2]) < 16 && digit_of(content[3]) < 16 {
            followed_by(
                seq![(digit_of(content[2]) * 16 + digit_of(content[3])) as u8],
                decoded(content.skip(4), malformed),
            )
        } else {
            Err(DiagnosticKind::BadEscape)
        }
    } else {
        match escape_of(content[1]) {
            Some(b) => followed_by(seq![b], decoded(content.skip(2), malformed)),
            None => Err(DiagnosticKind::BadEscape),
        }
    }
}

/// What resolving a string literal token gives: its bytes, or why it has
/// none.
pub open spec fn string_value(token: Seq<u8>) -> Result<Seq<u8>, DiagnosticKind> {
    if token.len() >= 2 && token[0] == QUOTE && token.last() == QUOTE {
        decoded(token.subrange(1, token.len() - 1), DiagnosticKind::BadStringLiteral)
    } else {
        Err(DiagnosticKind::BadStringLiteral)
    }
}

/// What resolving a byte string literal token gives: its bytes, or why it
/// has none.
pub open spec fn byte_string_value(token: Seq<u8>) -> Result<Seq<u8>, DiagnosticKind> {
    if token.len() >= 3 && token[0] == BYTE_PREFIX && token[1] == QUOTE && token.last() == QUOTE {
        decoded(token.subrange(2, token.len() - 1), DiagnosticKind::BadByteStringLiteral)
    } else {
        Err(DiagnosticKind::BadByteStringLiteral)
    }
}

/// The computed result holds exactly what the specified one does.
pub open spec fn same_bytes(
    result: Result<Vec<u8>, DiagnosticKind>,
    expected: Result<Seq<u8>, DiagnosticKind>,
) -> bool {
    match result {
        Ok(bytes) => expected == Ok::<Seq<u8>, DiagnosticKind>(bytes@),
        Err(kind) => expected == Err::<Seq<u8>, DiagnosticKind>(kind),
    }
}

/// Moving one byte from the front of the tail to the end of the head
/// changes nothing.
proof fn lemma_followed_by_push(head: Seq<u8>, b: u8, tail: Result<Seq<u8>, DiagnosticKind>)
    ensures
        followed_by(head, followed_by(seq![b], tail)) == followed_by(head.push(b), tail),
{
    if let Ok(rest) = tail {
        assert(head + (seq![b] + rest) =~= head.push(b) + rest);
    }
}

/// The value of `b` as a hexadecimal digit, if it is one.
fn hex_digit(b: u8) -> (d: Option<u8>)
    ensures
        d matches Some(v) ==> v == digit_of(b) && v < 16,
        d is None ==> digit_of(b) >= 16,
{
    if 48 <= b && b <= 57 {
        Some(b - 48)
    } else if 97 <= b && b <= 102 {
        Some(b - 87)
    } else if 65 <= b && b <= 70 {
        Some(b - 55)
    } else {
        None
    }
}

/// The byte that a single-letter escape stands for.
fn escape(letter: u8) -> (b: Option<u8>)
    ensures
        b == escape_of(letter),
{
    if letter == BACKSLASH || letter == QUOTE || letter == 39 {
        Some(letter)
    } else if letter == 110 {
        Some(10)
    } else if letter == 114 {
        Some(13)
    } else if letter == 116 {
        Some(9)
    } else if letter == 48 {
        Some(0)
    } else {
        None
    }
}

/// Decodes the content that `token` holds from `from` up to `to`.
fn decode(token: &[u8], from: usize, to: usize, malformed: DiagnosticKind) -> (result: Result<
    Vec<u8>,
    DiagnosticKind,
>)
    requires
        from <= to <= token@.len(),
    ensures
        same_bytes(result, decoded(token@.subrange(from as int, to as int), malformed)),
{
    let ghost content = token@.subrange(from as int, to as int);
    let mut out: Vec<u8> = Vec::new();
    let mut i: usize = from;
    assert(content.skip(0) =~= content);
    assert(Seq::<u8>::empty() + content =~= content);
    while i < to
        invariant
            from <= i <= to <= token@.len(),
            content == token@.subrange(from as int, to as int),
            decoded(content, malformed) == followed_by(
                out@,
                decoded(content.skip(i - from), malformed),
            ),
        decreases to - i,
    {
        let ghost rest = content.skip(i - from);
        let ghost head = out@;
        assert(rest.len() == to - i);
        assert(forall|k: int| 0 <= k < rest.len() ==> rest[k] == token@[i + k]);
        let b = token[i];
        if b == QUOTE {
            return Err(malformed);
        }
        if b != BACKSLASH {
            out.push(b);
            i += 1;
            proof {
                assert(rest.skip(1) =~= content.skip(i - from));
                lemma_followed_by_push(head, b, decoded(rest.skip(1), malformed));
            }
        } else {
            if to - i < 2 {
                return Err(DiagnosticKind::BadEscape);
            }
            let letter = token[i + 1];
            if letter == HEX_ESCAPE {
                if to - i < 4 {
                    return Err(DiagnosticKind::BadEscape);
                }
                let high = match hex_digit(token[i + 2]) {
                    Some(d) => d,
                    None => {
                        return Err(DiagnosticKind::BadEscape);
                    },
                };
                let low = match hex_digit(token[i + 3]) {
                    Some(d) => d,
                    None => {
                        return Err(DiagnosticKind::BadEscape);
                    },
                };
                let value: u8 = high * 16 + low;
                out.push(value);
                i += 4;
                proof {
                    assert(rest.skip(4) =~= content.skip(i - from));
                    lemma_followed_by_push(head, value, decoded(rest.skip(4), malformed));
                }
            } else {
                let value = match escape(letter) {
                    Some(v) => v,
                    None => {
                        return Err(DiagnosticKind::BadEscape);
                    },
                };
                out.push(value);
                i += 2;
                proof {
                    assert(rest.skip(2) =~= content.skip(i - from));
                    lemma_followed_by_push(head, value, decoded(rest.skip(2), malformed));
                }
            }
        }
    }
    assert(out@ + Seq::<u8>::empty() =~= out@);
    Ok(out)
}

/// Resolves a string literal token to the bytes it stands for.
///
/// A token without its two quotes, or with a raw quote between them, is
/// rejected as `BadStringLiteral`; a backslash without a known escape as
/// `BadEscape`.
pub fn parse_string(token: &[u8]) -> (result: Result<Vec<u8>, DiagnosticKind>)
    ensures
        same_bytes(result, string_value(token@)),
{
    let len = token.len();
    if len >= 2 && token[0] == QUOTE && token[len - 1] == QUOTE {
        decode(token, 1, len - 1, DiagnosticKind::BadStringLiteral)
    } else {
        Err(DiagnosticKind::BadStringLiteral)
    }
}

/// Resolves a byte string literal token to the bytes it stands for.
///
/// A token without its prefix and two quotes, or with a raw quote between
/// them, is rejected as `BadByteStringLiteral`; a backslash without a known
/// escape as `BadEscape`.
pub fn parse_byte_string(token: &[u8]) -> (result: Result<Vec<u8>, DiagnosticKind>)
    ensures
        same_bytes(result, byte_string_value(token@)),
{
    let len = token.len();
    if len >= 3 && token[0] == BYTE_PREFIX && token[1] == QUOTE && token[len - 1] == QUOTE {
        decode(token, 2, len - 1, DiagnosticKind::BadByteStringLiteral)
    } else {
        Err(DiagnosticKind::BadByteStringLiteral)
    }
}

} // verus!
