//! Lower-case hexadecimal notation of bytes.

use crate::error::{CanError, Failure};
use vstd::prelude::*;

verus! {

/// The number that a hex digit, given as a byte of text, stands for.
pub open spec fn hex_digit_value(c: u8) -> Option<u8> {
    if '0' as int <= c <= '9' as int {
        Some((c - '0' as int) as u8)
    } else if 'a' as int <= c <= 'f' as int {
        Some((c - 'a' as int + 10) as u8)
    } else if 'A' as int <= c <= 'F' as int {
        Some((c - 'A' as int + 10) as u8)
    } else {
        None
    }
}

/// The lower-case hex digit of a number below 16.
pub open spec fn hex_digit(n: int) -> char {
    if n < 10 {
        ('0' as int + n) as char
    } else {
        ('a' as int + n - 10) as char
    }
}

/// The hex notation of `bytes`: two lower-case digits for each, the high half
/// first.
pub open spec fn hex_text(bytes: Seq<u8>) -> Seq<char> {
    Seq::new(
        2 * bytes.len(),
        |i: int|
            if i % 2 == 0 {
                hex_digit(bytes[i / 2] as int / 16)
            } else {
                hex_digit(bytes[i / 2] as int % 16)
            },
    )
}

/// The bytes whose hex notation is `text`, given as its UTF-8 bytes.
pub open spec fn hex_bytes(text: Seq<u8>) -> Result<Seq<u8>, Failure<Seq<char>>> {
    if text.len() % 2 != 0 {
        Err(Failure::OddHexLength)
    } else if exists|i: int| 0 <= i < text.len() && hex_digit_value(#[trigger] text[i]) is None {
        Err(Failure::InvalidHexChar)
    } else {
        Ok(
            Seq::new(
                text.len() / 2,
                |i: int|
                    (16 * hex_digit_value(text[2 * i])->0 + hex_digit_value(text[2 * i + 1])->0)
                        as u8,
            ),
        )
    }
}

/// The number that a hex digit stands for.
pub fn hex_value(c: u8) -> (value: Result<u8, CanError>)
    ensures
        match value {
            Ok(n) => hex_digit_value(c) == Some(n) && n < 16,
            Err(e) => hex_digit_value(c) is None && e@ == Failure::<Seq<char>>::InvalidHexChar,
        },
{
    if 48 <= c && c <= 57 {
        Ok(c - 48)
    } else if 97 <= c && c <= 102 {
        Ok(c - 97 + 10)
    } else if 65 <= c && c <= 70 {
        Ok(c - 65 + 10)
    } else {
        Err(Failure::InvalidHexChar)
    }
}

fn hex_char(n: u8) -> (c: char)
    requires
        n < 16,
    ensures
        c == hex_digit(n as int),
{
    let code: u8 = if n < 10 {
        48 + n
    } else {
        97 + (n - 10)
    };
    code as char
}

/// The hex notation of `bytes`.
pub fn hex_encode(bytes: &[u8]) -> (text: String)
    ensures
        text@ == hex_text(bytes@),
{
    let mut text = String::new();
    for i in 0..bytes.len()
        invariant
            text@ == hex_text(bytes@.take(i as int)),
    {
        let b = bytes[i];
        assert(b >> 4 == b / 16 && b & 0x0f == b % 16) by (bit_vector);
        text.push(hex_char(b >> 4));
        text.push(hex_char(b & 0x0f));
        assert(text@ =~= hex_text(bytes@.take(i + 1)));
    }
    assert(bytes@.take(bytes.len() as int) =~= bytes@);
    text
}

/// The bytes whose hex notation is `text`. Digits of both cases are read.
pub fn hex_decode(text: &str) -> (bytes: Result<Vec<u8>, CanError>)
    ensures
        match bytes {
            Ok(b) => hex_bytes(vstd::utf8::encode_utf8(text@)) == Ok::<
                Seq<u8>,
                Failure<Seq<char>>,
            >(b@),
            Err(e) => hex_bytes(vstd::utf8::encode_utf8(text@)) == Err::<
                Seq<u8>,
                Failure<Seq<char>>,
            >(e@),
        },
{
    let raw = text.as_bytes();
    if raw.len() % 2 != 0 {
        return Err(Failure::OddHexLength);
    }
    let mut bytes: Vec<u8> = Vec::with_capacity(raw.len() / 2);
    let mut i: usize = 0;
    while i < raw.len()
        invariant
            raw@ == vstd::utf8::encode_utf8(text@),
            raw@.len() % 2 == 0,
            i <= raw@.len(),
            i % 2 == 0,
            bytes@.len() == i / 2,
            forall|j: int| 0 <= j < i ==> hex_digit_value(#[trigger] raw@[j]) is Some,
            forall|j: int|
                0 <= j < bytes@.len() ==> #[trigger] bytes@[j] == (16 * hex_digit_value(
                    raw@[2 * j],
                )->0 + hex_digit_value(raw@[2 * j + 1])->0) as u8,
        decreases raw@.len() - i,
    {
        let hi = hex_value(raw[i])?;
        let lo = hex_value(raw[i + 1])?;
        assert((hi << 4) | lo == 16 * hi + lo) by (bit_vector)
            requires
                hi < 16,
                lo < 16,
        ;
        bytes.push((hi << 4) | lo);
        i = i + 2;
    }
    assert(hex_bytes(raw@)->Ok_0 =~= bytes@);
    Ok(bytes)
}

/// Reading the hex notation of bytes gives the bytes back.
pub proof fn law_hex_roundtrip(bytes: Seq<u8>)
    ensures
        hex_bytes(vstd::utf8::encode_utf8(hex_text(bytes))) == Ok::<Seq<u8>, Failure<Seq<char>>>(
            bytes,
        ),
{
    let text = hex_text(bytes);
    let raw = vstd::utf8::encode_utf8(text);
    assert(vstd::utf8::is_ascii_chars(text));
    vstd::utf8::is_ascii_chars_encode_utf8(text);
    assert(raw =~= Seq::new(text.len(), |i: int| text[i] as u8));
    assert forall|i: int| 0 <= i < raw.len() implies hex_digit_value(#[trigger] raw[i]) is Some by {
        assert(raw[i] == text[i] as u8);
    }
    assert forall|i: int| 0 <= i < bytes.len() implies (16 * hex_digit_value(raw[2 * i])->0
        + hex_digit_value(raw[2 * i + 1])->0) as u8 == #[trigger] bytes[i] by {
        assert(raw[2 * i] == text[2 * i] as u8);
        assert(raw[2 * i + 1] == text[2 * i + 1] as u8);
        assert((2 * i + 1) / 2 == i);
    }
    assert(hex_bytes(raw)->Ok_0 =~= bytes);
}

/// Each byte is written as two of the sixteen digits, high half first, and
/// nothing else is written.
pub proof fn law_hex_digits(bytes: Seq<u8>, i: int)
    requires
        0 <= i < bytes.len(),
    ensures
        hex_text(bytes).len() == 2 * bytes.len(),
        hex_text(bytes)[2 * i] == "0123456789abcdef"@[bytes[i] as int / 16],
        hex_text(bytes)[2 * i + 1] == "0123456789abcdef"@[bytes[i] as int % 16],
{
    reveal_strlit("0123456789abcdef");
    assert((2 * i) / 2 == i && (2 * i) % 2 == 0);
    assert((2 * i + 1) / 2 == i && (2 * i + 1) % 2 == 1);
}

/// The digits of both cases are read as their places among the sixteen, and no
/// other byte is read.
pub proof fn law_hex_digit_values(c: u8, v: int)
    requires
        0 <= v < 16,
    ensures
        hex_digit_value(c) == Some(v as u8) <==> (c as char == "0123456789abcdef"@[v] || c as char
            == "0123456789ABCDEF"@[v]),
        hex_digit_value(c) is Some ==> hex_digit_value(c)->0 < 16,
{
    reveal_strlit("0123456789abcdef");
    reveal_strlit("0123456789ABCDEF");
}

/// A text is refused for its length, else for a byte that is no digit, and is
/// otherwise read two digits to a byte.
pub proof fn law_hex_reading(text: Seq<u8>)
    ensures
        hex_bytes(text) == Err::<Seq<u8>, Failure<Seq<char>>>(Failure::OddHexLength) <==> text.len()
            % 2 == 1,
        hex_bytes(text) == Err::<Seq<u8>, Failure<Seq<char>>>(Failure::InvalidHexChar) <==> (
        text.len() % 2 == 0 && exists|i: int|
            0 <= i < text.len() && hex_digit_value(#[trigger] text[i]) is None),
        hex_bytes(text) is Ok <==> (text.len() % 2 == 0 && forall|i: int|
            0 <= i < text.len() ==> hex_digit_value(#[trigger] text[i]) is Some),
        hex_bytes(text) is Ok ==> {
            let bytes = hex_bytes(text)->Ok_0;
            &&& 2 * bytes.len() == text.len()
            &&& forall|i: int|
                0 <= i < bytes.len() ==> #[trigger] bytes[i] == 16 * hex_digit_value(text[2 * i])->0
                    + hex_digit_value(text[2 * i + 1])->0
        },
{
    if hex_bytes(text) is Ok {
        let bytes = hex_bytes(text)->Ok_0;
        assert forall|i: int| 0 <= i < bytes.len() implies #[trigger] bytes[i] == 16
            * hex_digit_value(text[2 * i])->0 + hex_digit_value(text[2 * i + 1])->0 by {
            let hi = text[2 * i];
            let lo = text[2 * i + 1];
            assert(hex_digit_value(hi) is Some && hex_digit_value(lo) is Some);
            law_hex_digit_values(hi, 0);
            law_hex_digit_values(lo, 0);
        }
    }
}

} // verus!
