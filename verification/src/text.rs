use vstd::prelude::*;

use crate::calculations::Ratio;

verus! {

/// `String::push` appends the given character to the end of the string.
pub assume_specification[ String::push ](s: &mut String, c: char)
    ensures
        final(s)@ == old(s)@.push(c),
;

/// The characters of `s`, in order.
pub fn chars_of(s: &str) -> (out: Vec<char>)
    ensures
        out@ == s@,
{
    let mut out: Vec<char> = Vec::new();
    for c in it: s.chars()
        invariant
            it.seq() == s@,
            out@ == it.seq().take(it.index()),
    {
        out.push(c);
    }
    assert(out@ == s@);
    out
}

/// The string whose characters are those of `chars`, in order.
pub fn string_of(chars: &Vec<char>) -> (out: String)
    ensures
        out@ == chars@,
{
    let mut out = String::new();
    let mut i: usize = 0;
    while i < chars.len()
        invariant
            i <= chars.len(),
            out@ == chars@.take(i as int),
        decreases chars.len() - i,
    {
        out.push(chars[i]);
        i += 1;
    }
    out
}

/// Whether two vectors hold the same characters.
pub fn same_chars(a: &Vec<char>, b: &Vec<char>) -> (same: bool)
    ensures
        same == (a@ == b@),
{
    if a.len() != b.len() {
        return false;
    }
    let mut i: usize = 0;
    while i < a.len()
        invariant
            i <= a.len(),
            a.len() == b.len(),
            a@.take(i as int) == b@.take(i as int),
        decreases a.len() - i,
    {
        if a[i] != b[i] {
            return false;
        }
        assert(a@.take(i + 1) =~= a@.take(i as int).push(a@[i as int]));
        assert(b@.take(i + 1) =~= b@.take(i as int).push(b@[i as int]));
        i += 1;
    }
    assert(a@.take(a.len() as int) =~= a@);
    assert(b@.take(b.len() as int) =~= b@);
    true
}

/// The character that stands for a digit.
pub open spec fn digit_char(digit: int) -> char {
    if digit == 0 {
        '0'
    } else if digit == 1 {
        '1'
    } else if digit == 2 {
        '2'
    } else if digit == 3 {
        '3'
    } else if digit == 4 {
        '4'
    } else if digit == 5 {
        '5'
    } else if digit == 6 {
        '6'
    } else if digit == 7 {
        '7'
    } else if digit == 8 {
        '8'
    } else {
        '9'
    }
}

/// A number written in decimal digits, without leading zeros.
pub open spec fn decimal(n: nat) -> Seq<char>
    decreases n,
{
    if n < 10 {
        seq![digit_char(n as int)]
    } else {
        decimal(n / 10).push(digit_char((n % 10) as int))
    }
}

/// A ratio written with two decimals, cut after the second: the whole part,
/// a point, and the tenths and hundredths.
pub open spec fn two_decimals(ratio: Ratio) -> Seq<char> {
    let whole = ratio.numerator / (ratio.denominator as u128);
    let rest = ratio.numerator % (ratio.denominator as u128);
    let hundredths = rest * 100 / (ratio.denominator as int);
    decimal(whole as nat) + seq!['.', digit_char(hundredths / 10), digit_char(hundredths % 10)]
}

/// The character for a digit below 10.
fn digit_of(digit: u8) -> (c: char)
    requires
        digit < 10,
    ensures
        c == digit_char(digit as int),
{
    if digit == 0 {
        '0'
    } else if digit == 1 {
        '1'
    } else if digit == 2 {
        '2'
    } else if digit == 3 {
        '3'
    } else if digit == 4 {
        '4'
    } else if digit == 5 {
        '5'
    } else if digit == 6 {
        '6'
    } else if digit == 7 {
        '7'
    } else if digit == 8 {
        '8'
    } else {
        '9'
    }
}

/// Append a number in decimal digits to a string.
pub fn push_decimal(out: &mut String, n: u128)
    ensures
        final(out)@ == old(out)@ + decimal(n as nat),
    decreases n,
{
    if n >= 10 {
        push_decimal(out, n / 10);
    }
    out.push(digit_of((n % 10) as u8));
    assert(final(out)@ =~= old(out)@ + decimal(n as nat));
}

/// A number in decimal digits.
pub fn decimal_string(n: u128) -> (digits: String)
    ensures
        digits@ == decimal(n as nat),
{
    let mut digits = String::new();
    push_decimal(&mut digits, n);
    assert(digits@ =~= decimal(n as nat));
    digits
}

/// Write a ratio with two decimals, cut after the second.
pub fn two_decimals_string(ratio: Ratio) -> (digits: String)
    requires
        ratio.wf(),
    ensures
        digits@ == two_decimals(ratio),
{
    let denominator: u128 = ratio.denominator as u128;
    let whole: u128 = ratio.numerator / denominator;
    let rest: u128 = ratio.numerator % denominator;
    assert(rest * 100 <= u128::MAX) by (nonlinear_arith)
        requires
            rest < denominator,
            denominator <= u64::MAX,
    ;
    let hundredths: u128 = rest * 100 / denominator;
    assert(hundredths < 100) by (nonlinear_arith)
        requires
            hundredths == (rest * 100) / (denominator as int),
            0 <= rest < denominator,
            denominator > 0,
    ;
    let mut digits = decimal_string(whole);
    digits.push('.');
    digits.push(digit_of((hundredths / 10) as u8));
    digits.push(digit_of((hundredths % 10) as u8));
    assert(digits@ =~= two_decimals(ratio));
    digits
}

} // verus!
