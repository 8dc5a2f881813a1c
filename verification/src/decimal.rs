use vstd::prelude::*;

use crate::charclass::is_ascii_digit;

verus! {

/// The character of a decimal digit.
pub open spec fn digit_char(d: nat) -> char
    recommends
        d < 10,
{
    (d + 48) as char
}

/// The digit that a character `0` to `9` stands for.
pub open spec fn digit_value(c: char) -> nat
    recommends
        is_ascii_digit(c),
{
    (c as nat - 48) as nat
}

/// Whether a text holds decimal digits alone.
pub open spec fn all_digits(s: Seq<char>) -> bool {
    forall|i: int| 0 <= i < s.len() ==> is_ascii_digit(#[trigger] s[i])
}

/// The number that a run of decimal digits denotes, most significant digit
/// first; the empty run denotes zero.
pub open spec fn decimal_value(s: Seq<char>) -> nat
    decreases s.len(),
{
    if s.len() == 0 {
        0
    } else {
        10 * decimal_value(s.drop_last()) + digit_value(s.last())
    }
}

/// The shortest run of decimal digits that denotes `n`.
pub open spec fn decimal(n: nat) -> Seq<char>
    decreases n,
{
    if n < 10 {
        seq![digit_char(n)]
    } else {
        decimal(n / 10).push(digit_char(n % 10))
    }
}

/// What is left of a numeral once one leading plus sign is taken off.
pub open spec fn unsigned_part(s: Seq<char>) -> Seq<char> {
    if s.len() > 0 && s[0] == '+' {
        s.drop_first()
    } else {
        s
    }
}

/// The number that a text denotes as a `usize`: an optional plus sign, then
/// one decimal digit or more, with a value within range. Any other text
/// denotes none.
pub open spec fn numeral_value(s: Seq<char>) -> Option<nat> {
    let digits = unsigned_part(s);
    if digits.len() > 0 && all_digits(digits) && decimal_value(digits) <= usize::MAX {
        Some(decimal_value(digits))
    } else {
        None
    }
}

/// A longer run of characters denotes no less than any run it starts with.
pub proof fn lemma_decimal_value_grows(s: Seq<char>, k: int)
    requires
        0 <= k <= s.len(),
    ensures
        decimal_value(s.take(k)) <= decimal_value(s),
    decreases s.len() - k,
{
    if k == s.len() {
        assert(s.take(k) =~= s);
    } else {
        lemma_decimal_value_grows(s.drop_last(), k);
        assert(s.drop_last().take(k) =~= s.take(k));
    }
}

/// The rendering of a number is a non-empty run of digits that denotes it.
pub proof fn lemma_decimal_denotes(n: nat)
    ensures
        decimal(n).len() > 0,
        all_digits(decimal(n)),
        decimal_value(decimal(n)) == n,
    decreases n,
{
    if n < 10 {
        assert(decimal(n).drop_last() =~= Seq::<char>::empty());
        assert(decimal_value(decimal(n).drop_last()) == 0);
    } else {
        lemma_decimal_denotes(n / 10);
        assert(decimal(n).drop_last() =~= decimal(n / 10));
        assert(decimal(n).last() == digit_char(n % 10));
    }
}

/// A rendered number reads back as itself wherever it fits the machine word.
pub proof fn lemma_numeral_of_decimal(n: nat)
    requires
        n <= usize::MAX,
    ensures
        numeral_value(decimal(n)) == Some(n),
{
    lemma_decimal_denotes(n);
    assert(is_ascii_digit(decimal(n)[0]));
    assert(unsigned_part(decimal(n)) == decimal(n));
}

/// Reads a text as a `usize` in decimal notation.
pub fn parse_numeral(text: &Vec<char>) -> (r: Option<usize>)
    ensures
        match r {
            Some(n) => numeral_value(text@) == Some(n as nat),
            None => numeral_value(text@) is None,
        },
{
    let len: usize = text.len();
    let start: usize = if len > 0 && text[0] == '+' {
        1
    } else {
        0
    };
    if start == len {
        return None;
    }
    let ghost digits = unsigned_part(text@);
    assert(digits =~= text@.skip(start as int));
    let mut acc: usize = 0;
    let mut i: usize = start;
    while i < len
        invariant
            start <= i <= len,
            len == text@.len(),
            digits == text@.skip(start as int),
            digits == unsigned_part(text@),
            all_digits(digits.take(i - start)),
            acc == decimal_value(digits.take(i - start)),
        decreases len - i,
    {
        let c: char = text[i];
        let ghost head = digits.take(i - start + 1);
        assert(head.drop_last() =~= digits.take(i - start));
        if !(c >= '0' && c <= '9') {
            assert(!is_ascii_digit(digits[i - start]));
            return None;
        }
        let d: usize = (c as u8 - 48u8) as usize;
        proof {
            assert(decimal_value(head) == 10 * acc + d);
            lemma_decimal_value_grows(digits, i - start + 1);
        }
        let Some(tens) = acc.checked_mul(10) else {
            return None;
        };
        let Some(next) = tens.checked_add(d) else {
            return None;
        };
        acc = next;
        i = i + 1;
    }
    assert(digits.take(i - start) =~= digits);
    Some(acc)
}

/// The character of a decimal digit.
pub fn digit_of(d: usize) -> (c: char)
    requires
        d < 10,
    ensures
        c == digit_char(d as nat),
{
    (d as u8 + 48u8) as char
}

} // verus!
