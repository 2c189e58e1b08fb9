//! Whole numbers in decimal notation.

use vstd::prelude::*;

use crate::text::to_text;

verus! {

/// Whether `c` is an ASCII digit.
pub open spec fn is_digit(c: char) -> bool {
    '0' <= c <= '9'
}

/// Whether `s` is a number: one or more ASCII digits and nothing else.
pub open spec fn is_number(s: Seq<char>) -> bool {
    s.len() > 0 && forall|i: int| 0 <= i < s.len() ==> is_digit(#[trigger] s[i])
}

/// The digit for `d`.
pub open spec fn digit(d: int) -> char {
    ('0' as int + d) as char
}

/// `n` in decimal notation, without leading zeros.
pub open spec fn decimal(n: nat) -> Seq<char>
    decreases n,
{
    if n < 10 {
        seq![digit(n as int)]
    } else {
        decimal(n / 10).push(digit((n % 10) as int))
    }
}

/// The number whose decimal digits are `s`.
pub open spec fn value(s: Seq<char>) -> nat
    decreases s.len(),
{
    if s.len() == 0 {
        0
    } else {
        (value(s.drop_last()) * 10 + (s.last() as int - '0' as int)) as nat
    }
}

/// The number that `s` stands for as a `u32`: decimal digits, after a `+` or not, whose value
/// fits.
pub open spec fn as_u32(s: Seq<char>) -> Option<u32> {
    let digits = if s.len() > 0 && s[0] == '+' {
        s.skip(1)
    } else {
        s
    };
    if is_number(digits) && value(digits) <= u32::MAX {
        Some(value(digits) as u32)
    } else {
        None
    }
}

/// Appending digits never makes a number smaller.
proof fn lemma_value_grows(s: Seq<char>, n: int)
    requires
        0 <= n <= s.len(),
        forall|i: int| 0 <= i < s.len() ==> is_digit(#[trigger] s[i]),
    ensures
        value(s.take(n)) <= value(s),
    decreases s.len() - n,
{
    if n == s.len() {
        assert(s.take(n) =~= s);
    } else {
        lemma_value_grows(s, n + 1);
        assert(s.take(n + 1).drop_last() =~= s.take(n));
        assert(s.take(n + 1).last() == s[n]);
    }
}

/// Reads back what `decimal` writes: for every `n`, the digits of `n` are a number, and its value
/// is `n`.
pub proof fn law_decimal_round_trip(n: nat)
    ensures
        is_number(decimal(n)),
        value(decimal(n)) == n,
    decreases n,
{
    let s = decimal(n);
    let d = (n % 10) as int;
    assert(s.last() == digit(d));
    assert(is_digit(digit(d)) && digit(d) as int - '0' as int == d);
    if n < 10 {
        assert(s.drop_last() =~= Seq::<char>::empty());
        assert(value(s.drop_last()) == 0);
    } else {
        law_decimal_round_trip(n / 10);
        assert(s.drop_last() =~= decimal(n / 10));
    }
}

/// A decimal `u32` is read back as itself.
pub proof fn law_u32_round_trip(n: u32)
    ensures
        as_u32(decimal(n as nat)) == Some(n),
{
    law_decimal_round_trip(n as nat);
    assert(is_digit(decimal(n as nat)[0]));
}

/// Whether `s` is one or more ASCII digits and nothing else.
pub fn number(s: &[char]) -> (yes: bool)
    ensures
        yes == is_number(s@),
{
    if s.len() == 0 {
        return false;
    }
    for i in 0..s.len()
        invariant
            forall|j: int| 0 <= j < i ==> is_digit(#[trigger] s@[j]),
    {
        if !('0' <= s[i] && s[i] <= '9') {
            assert(!is_digit(s@[i as int]));
            return false;
        }
    }
    true
}

/// Reads `s` as a `u32`.
pub fn parse_u32(s: &[char]) -> (n: Option<u32>)
    ensures
        n == as_u32(s@),
{
    let start: usize = if s.len() > 0 && s[0] == '+' {
        1
    } else {
        0
    };
    let digits = vstd::slice::slice_subrange(s, start, s.len());
    assert(digits@ =~= s@.skip(start as int));
    assert(s@.skip(0) =~= s@);
    if !number(digits) {
        return None;
    }
    let mut n: u32 = 0;
    for i in 0..digits.len()
        invariant
            is_number(digits@),
            digits@ == if s@.len() > 0 && s@[0] == '+' {
                s@.skip(1)
            } else {
                s@
            },
            n == value(digits@.take(i as int)),
    {
        proof {
            lemma_value_grows(digits@, i + 1);
            assert(digits@.take(i + 1).drop_last() =~= digits@.take(i as int));
            assert(digits@.take(i + 1).last() == digits@[i as int]);
            assert(is_digit(digits@[i as int]));
        }
        let d: u32 = digits[i] as u32 - '0' as u32;
        let next: u64 = n as u64 * 10 + d as u64;
        if next > 0xffff_ffff {
            return None;
        }
        n = next as u32;
    }
    assert(digits@.take(digits@.len() as int) =~= digits@);
    Some(n)
}

/// Writes `n` in decimal notation.
pub fn to_decimal(n: u64) -> (s: String)
    ensures
        s@ == decimal(n as nat),
{
    let mut reversed: Vec<char> = Vec::new();
    let mut rest: u64 = n;
    while rest >= 10
        invariant
            decimal(n as nat) == decimal(rest as nat) + reversed@.reverse(),
        decreases rest,
    {
        let c = digit_char(rest % 10);
        let ghost before = reversed@;
        reversed.push(c);
        assert(decimal(rest as nat) + before.reverse() =~= decimal((rest / 10) as nat)
            + reversed@.reverse());
        rest = rest / 10;
    }
    reversed.push(digit_char(rest));
    let mut chars: Vec<char> = Vec::new();
    let len = reversed.len();
    for i in 0..len
        invariant
            len == reversed@.len(),
            chars@ == reversed@.reverse().take(i as int),
    {
        chars.push(reversed[len - 1 - i]);
        assert(chars@ =~= reversed@.reverse().take(i + 1));
    }
    assert(chars@ =~= reversed@.reverse());
    assert(chars@ =~= decimal(n as nat));
    to_text(chars.as_slice())
}

/// The digit for `d`.
fn digit_char(d: u64) -> (c: char)
    requires
        d < 10,
    ensures
        c == digit(d as int),
{
    (48u8 + d as u8) as char
}

/// A number is one or more ASCII digits and nothing else.
pub proof fn law_numbers_are_digits(s: Seq<char>)
    ensures
        is_number(s) <==> s.len() > 0 && forall|i: int|
            0 <= i < s.len() ==> '0' <= #[trigger] s[i] && s[i] <= '9',
{
    if s.len() > 0 && (forall|i: int| 0 <= i < s.len() ==> '0' <= #[trigger] s[i] && s[i] <= '9') {
        assert forall|i: int| 0 <= i < s.len() implies is_digit(#[trigger] s[i]) by {}
    }
    if is_number(s) {
        assert forall|i: int| 0 <= i < s.len() implies '0' <= #[trigger] s[i] && s[i] <= '9' by {
            assert(is_digit(s[i]));
        }
    }
}

/// Each digit behind a number counts ten times less than those before it.
pub proof fn law_digits_have_their_place(s: Seq<char>, c: char)
    requires
        '0' <= c <= '9',
    ensures
        value(s.push(c)) == value(s) * 10 + (c as int - '0' as int),
        value(seq![]) == 0,
{
    assert(s.push(c).drop_last() =~= s);
}

/// A text is read as a `u32` exactly if it is a number whose value fits, behind a plus sign or not.
pub proof fn law_only_numbers_that_fit_are_read(s: Seq<char>)
    ensures
        is_number(s) ==> as_u32(s) == (if value(s) <= 0xffff_ffff {
            Some(value(s) as u32)
        } else {
            None
        }),
        as_u32(seq!['+'] + s) == if is_number(s) {
            as_u32(s)
        } else {
            None
        },
        !is_number(s) && (s.len() == 0 || s[0] != '+') ==> as_u32(s) is None,
{
    let t = seq!['+'] + s;
    assert(t.skip(1) =~= s);
    if s.len() > 0 && s[0] == '+' {
        assert(!is_digit(s[0]));
    }
}

/// A number is written without leading zeros, and its last digit is what is left of it by ten.
pub proof fn law_decimals_have_no_leading_zeros(n: nat)
    ensures
        n > 0 ==> decimal(n)[0] != '0',
        decimal(n).len() > 0,
        decimal(n).last() as int == '0' as int + n % 10,
        n < 10 ==> decimal(n).len() == 1,
        n >= 10 ==> decimal(n).drop_last() == decimal(n / 10),
    decreases n,
{
    if n >= 10 {
        law_decimals_have_no_leading_zeros(n / 10);
        assert(decimal(n)[0] == decimal(n / 10)[0]);
        assert(decimal(n).drop_last() =~= decimal(n / 10));
    }
}

} // verus!
