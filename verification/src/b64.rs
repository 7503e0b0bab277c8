//! B64, the Base64 of PHC strings: the standard alphabet without padding.

use vstd::prelude::*;

verus! {

/// The character of B64 for a number below 64.
pub open spec fn b64_char(n: int) -> char {
    if n < 26 {
        ('A' as int + n) as char
    } else if n < 52 {
        ('a' as int + n - 26) as char
    } else if n < 62 {
        ('0' as int + n - 52) as char
    } else if n == 62 {
        '+'
    } else {
        '/'
    }
}

/// The `i`th group of six bits of `bytes`, where bits past the end are zero.
pub open spec fn sextet(bytes: Seq<u8>, i: int) -> int {
    let byte = |j: int| if j < bytes.len() { bytes[j] as int } else { 0 };
    let j = 3 * (i / 4);
    if i % 4 == 0 {
        byte(j) / 4
    } else if i % 4 == 1 {
        byte(j) % 4 * 16 + byte(j + 1) / 16
    } else if i % 4 == 2 {
        byte(j + 1) % 16 * 4 + byte(j + 2) / 64
    } else {
        byte(j + 2) % 64
    }
}

/// The B64 encoding of `bytes`: a character for each six bits.
pub open spec fn b64_text(bytes: Seq<u8>) -> Seq<char> {
    Seq::new((4 * bytes.len() + 2) as nat / 3, |i: int| b64_char(sextet(bytes, i)))
}

/// The bytes that `text` encodes, if there are any.
pub open spec fn b64_bytes(text: Seq<char>) -> Option<Seq<u8>> {
    if exists|bytes: Seq<u8>| #[trigger] b64_text(bytes) == text {
        Some(choose|bytes: Seq<u8>| #[trigger] b64_text(bytes) == text)
    } else {
        None
    }
}

/// Whether `c` is a character of B64.
pub open spec fn is_b64(c: char) -> bool {
    ||| 'A' as int <= c as int <= 'Z' as int
    ||| 'a' as int <= c as int <= 'z' as int
    ||| '0' as int <= c as int <= '9' as int
    ||| c == '+'
    ||| c == '/'
}

proof fn lemma_sextet(bytes: Seq<u8>, i: int)
    requires
        i >= 0,
    ensures
        0 <= sextet(bytes, i) < 64,
{
}

/// An encoding takes four characters for every three bytes, all of them of
/// B64. There is no padding.
pub proof fn law_b64_form(bytes: Seq<u8>)
    ensures
        b64_text(bytes).len() == (4 * bytes.len() + 2) / 3,
        forall|i: int| 0 <= i < b64_text(bytes).len() ==> is_b64(#[trigger] b64_text(bytes)[i]),
{
    assert forall|i: int| 0 <= i < b64_text(bytes).len() implies is_b64(
        #[trigger] b64_text(bytes)[i],
    ) by {
        lemma_sextet(bytes, i);
    }
}

proof fn lemma_same_sextet(one: Seq<u8>, two: Seq<u8>, i: int)
    requires
        b64_text(one) == b64_text(two),
        0 <= i < b64_text(one).len(),
    ensures
        sextet(one, i) == sextet(two, i),
{
    lemma_sextet(one, i);
    lemma_sextet(two, i);
    assert(b64_text(one)[i] == b64_char(sextet(one, i)));
    assert(b64_text(two)[i] == b64_char(sextet(two, i)));
}

/// Different bytes have different encodings.
pub proof fn law_b64_distinct(one: Seq<u8>, two: Seq<u8>)
    requires
        one != two,
    ensures
        b64_text(one) != b64_text(two),
{
    if b64_text(one) == b64_text(two) {
        assert(b64_text(one).len() == b64_text(two).len());
        assert(one.len() == two.len());
        assert forall|j: int| 0 <= j < one.len() implies one[j] == two[j] by {
            let k = j / 3;
            let i = 4 * k + j % 3;
            assert(i + 1 < b64_text(one).len());
            lemma_same_sextet(one, two, i);
            lemma_same_sextet(one, two, i + 1);
            assert(i / 4 == k && (i + 1) / 4 == k);
            assert(i % 4 == j % 3 && (i + 1) % 4 == j % 3 + 1);
        }
        assert(one =~= two);
    }
}

/// Encoded bytes are read back.
pub proof fn law_b64_roundtrip(bytes: Seq<u8>)
    ensures
        b64_bytes(b64_text(bytes)) == Some(bytes),
{
    let read = b64_bytes(b64_text(bytes))->0;
    if read != bytes {
        law_b64_distinct(read, bytes);
    }
}

/// The alphabet is the capital letters, the small ones, the digits, plus and
/// slash.
pub proof fn law_b64_alphabet(n: int)
    requires
        0 <= n < 64,
    ensures
        b64_char(n) == "ABCDEFGHIJKLMNOPQRSTUVWXYZabcdefghijklmnopqrstuvwxyz0123456789+/"@[n],
{
    reveal_strlit("ABCDEFGHIJKLMNOPQRSTUVWXYZabcdefghijklmnopqrstuvwxyz0123456789+/");
}

/// Each three bytes, filled up with zeroes at the end, are the same number as
/// the four groups of six bits that are written for them.
pub proof fn law_b64_groups(bytes: Seq<u8>, k: int)
    requires
        0 <= k,
        3 * k < bytes.len(),
    ensures
        ({
            let one = bytes[3 * k] as int;
            let two = if 3 * k + 1 < bytes.len() {
                bytes[3 * k + 1] as int
            } else {
                0
            };
            let three = if 3 * k + 2 < bytes.len() {
                bytes[3 * k + 2] as int
            } else {
                0
            };
            65536 * one + 256 * two + three == 262144 * sextet(bytes, 4 * k) + 4096 * sextet(
                bytes,
                4 * k + 1,
            ) + 64 * sextet(bytes, 4 * k + 2) + sextet(bytes, 4 * k + 3)
        }),
        forall|i: int|
            0 <= i < b64_text(bytes).len() ==> #[trigger] b64_text(bytes)[i] == b64_char(
                sextet(bytes, i),
            ),
{
    assert((4 * k) / 4 == k && (4 * k) % 4 == 0);
    assert((4 * k + 1) / 4 == k && (4 * k + 1) % 4 == 1);
    assert((4 * k + 2) / 4 == k && (4 * k + 2) % 4 == 2);
    assert((4 * k + 3) / 4 == k && (4 * k + 3) % 4 == 3);
}

} // verus!
