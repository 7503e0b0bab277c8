//! Text as sequences of characters, and decimal notation.

use vstd::prelude::*;

verus! {

/// `String::push` appends one character.
pub assume_specification[ std::string::String::push ](text: &mut std::string::String, c: char)
    ensures
        final(text)@ == old(text)@.push(c),
;

/// The characters of `text`, in order.
pub fn chars_of(text: &str) -> (chars: Vec<char>)
    ensures
        chars@ == text@,
{
    let mut chars: Vec<char> = Vec::new();
    for c in it: text.chars()
        invariant
            it.seq() == text@,
            chars@ == text@.take(it.index()),
    {
        chars.push(c);
        assert(chars@ =~= text@.take(it.index() + 1));
    }
    assert(chars@ =~= text@);
    chars
}

/// The text made of `chars`, in order.
pub fn string_of(chars: &Vec<char>) -> (text: String)
    ensures
        text@ == chars@,
{
    let mut text = String::new();
    for i in 0..chars.len()
        invariant
            text@ == chars@.take(i as int),
    {
        text.push(chars[i]);
        assert(text@ =~= chars@.take(i + 1));
    }
    assert(text@ =~= chars@);
    text
}

/// `text` with `more` behind it.
pub fn joined(text: &str, more: &str) -> (both: String)
    ensures
        both@ == text@ + more@,
{
    let mut both = text.to_owned();
    both.append(more);
    both
}

/// Whether `c` is one of the ten ASCII digits.
pub open spec fn is_digit(c: char) -> bool {
    '0' as int <= c as int <= '9' as int
}

/// The number that the digit `c` stands for.
pub open spec fn digit_value(c: char) -> nat {
    (c as int - '0' as int) as nat
}

/// The digit that stands for `n`.
pub open spec fn digit_char(n: nat) -> char {
    ('0' as int + n) as char
}

/// The number that a row of digits stands for.
pub open spec fn digits_value(s: Seq<char>) -> nat
    decreases s.len(),
{
    if s.len() == 0 {
        0
    } else {
        10 * digits_value(s.drop_last()) + digit_value(s.last())
    }
}

/// Reads `s` as a decimal number: one digit or more and no other character,
/// and no leading zero unless the zero stands alone.
pub open spec fn decimal(s: Seq<char>) -> Option<nat> {
    if s.len() > 0 && (forall|i: int| 0 <= i < s.len() ==> is_digit(#[trigger] s[i])) && (s.len()
        == 1 || s[0] != '0') {
        Some(digits_value(s))
    } else {
        None
    }
}

/// The decimal notation of `n`.
pub open spec fn decimal_text(n: nat) -> Seq<char>
    decreases n,
{
    if n < 10 {
        seq![digit_char(n)]
    } else {
        decimal_text(n / 10).push(digit_char(n % 10))
    }
}

/// Reading the decimal notation of a number gives the number back.
pub proof fn law_decimal_roundtrip(n: nat)
    ensures
        decimal(decimal_text(n)) == Some(n),
    decreases n,
{
    lemma_decimal_text(n);
}

proof fn lemma_decimal_text(n: nat)
    ensures
        decimal_text(n).len() > 0,
        forall|i: int| 0 <= i < decimal_text(n).len() ==> is_digit(#[trigger] decimal_text(n)[i]),
        n > 0 ==> decimal_text(n)[0] != '0',
        n < 10 ==> decimal_text(n).len() == 1,
        digits_value(decimal_text(n)) == n,
    decreases n,
{
    let s = decimal_text(n);
    if n < 10 {
        assert(s.drop_last() =~= Seq::<char>::empty());
        assert(digits_value(s.drop_last()) == 0);
    } else {
        lemma_decimal_text(n / 10);
        assert(s.drop_last() =~= decimal_text(n / 10));
    }
}

/// More digits never stand for a smaller number.
proof fn lemma_prefix_value(s: Seq<char>, k: int)
    requires
        0 <= k <= s.len(),
    ensures
        digits_value(s.take(k)) <= digits_value(s),
    decreases s.len(),
{
    if k < s.len() {
        lemma_prefix_value(s.drop_last(), k);
        assert(s.drop_last().take(k) =~= s.take(k));
    } else {
        assert(s.take(k) =~= s);
    }
}

/// Reads `token` as a decimal number that a `usize` can hold.
pub fn parse_usize(token: &str) -> (number: Option<usize>)
    ensures
        match decimal(token@) {
            Some(n) if n <= usize::MAX => number == Some(n as usize),
            _ => number is None,
        },
{
    let chars = chars_of(token);
    if chars.len() == 0 || (chars[0] == '0' && chars.len() != 1) {
        return None;
    }
    let mut value: usize = 0;
    for i in 0..chars.len()
        invariant
            chars@ == token@,
            value == digits_value(chars@.take(i as int)),
            forall|j: int| 0 <= j < i ==> is_digit(#[trigger] chars@[j]),
    {
        let c = chars[i];
        proof {
            lemma_prefix_value(chars@, i + 1);
            assert(chars@.take(i + 1).drop_last() =~= chars@.take(i as int));
        }
        if c < '0' || c > '9' {
            assert(!is_digit(token@[i as int]));
            return None;
        }
        let digit: usize = (c as u32 - '0' as u32) as usize;
        if value > (usize::MAX - digit) / 10 {
            return None;
        }
        value = value * 10 + digit;
    }
    assert(chars@.take(chars.len() as int) =~= chars@);
    Some(value)
}

/// Appends the decimal notation of `n` to `text`.
pub fn push_decimal(text: &mut String, n: u64)
    ensures
        final(text)@ == old(text)@ + decimal_text(n as nat),
    decreases n,
{
    if n >= 10 {
        push_decimal(text, n / 10);
    }
    let digit: u8 = 48 + (n % 10) as u8;
    text.push(digit as char);
    assert(text@ =~= old(text)@ + decimal_text(n as nat));
}

/// Of the ten digits, each stands for its place among them.
pub proof fn law_digits(d: nat)
    requires
        d < 10,
    ensures
        digit_char(d) == "0123456789"@[d as int],
        is_digit(digit_char(d)),
        digit_value(digit_char(d)) == d,
        decimal_text(d) == seq![digit_char(d)],
{
    reveal_strlit("0123456789");
    assert(decimal_text(d) =~= seq![digit_char(d)]);
}

/// A digit behind a number makes it ten times as much, and the digit more.
pub proof fn law_next_digit(n: nat, d: nat)
    requires
        n > 0,
        d < 10,
    ensures
        decimal_text(10 * n + d) == decimal_text(n).push(digit_char(d)),
{
    assert((10 * n + d) / 10 == n && (10 * n + d) % 10 == d);
    assert(decimal_text(10 * n + d) =~= decimal_text(n).push(digit_char(d)));
}

/// A text is read as a number only where it is the decimal notation of it.
pub proof fn law_decimal_is_canonical(s: Seq<char>)
    ensures
        decimal(s) is Some ==> s == decimal_text(decimal(s)->0),
    decreases s.len(),
{
    if decimal(s) is Some {
        let n = digits_value(s);
        let d = digit_value(s.last());
        assert(is_digit(s.last()));
        assert(digit_char(d) == s.last());
        if s.len() == 1 {
            assert(s.drop_last().len() == 0);
            assert(n == d);
            assert(s =~= seq![s[0]]);
            assert(decimal_text(n) =~= seq![digit_char(d)]);
        } else {
            let front = s.drop_last();
            assert(forall|i: int| 0 <= i < front.len() ==> is_digit(#[trigger] front[i])) by {
                assert forall|i: int| 0 <= i < front.len() implies is_digit(
                    #[trigger] front[i],
                ) by {
                    assert(front[i] == s[i]);
                }
            }
            assert(front[0] == s[0]);
            law_decimal_is_canonical(front);
            let m = digits_value(front);
            assert(m > 0) by {
                lemma_leading_digit(front);
            }
            assert(n == 10 * m + d);
            law_next_digit(m, d);
            assert(front.push(s.last()) =~= s);
        }
    }
}

proof fn lemma_leading_digit(s: Seq<char>)
    requires
        s.len() > 0,
        is_digit(s[0]),
        s[0] != '0',
    ensures
        digits_value(s) > 0,
    decreases s.len(),
{
    if s.len() > 1 {
        assert(s.drop_last()[0] == s[0]);
        lemma_leading_digit(s.drop_last());
    } else {
        assert(s.drop_last().len() == 0);
    }
}

} // verus!
