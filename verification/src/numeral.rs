//! Decimal numerals.
use vstd::prelude::*;

verus! {

/// The character for a single decimal digit.
pub open spec fn digit(d: nat) -> char
    recommends
        d < 10,
{
    if d == 0 {
        '0'
    } else if d == 1 {
        '1'
    } else if d == 2 {
        '2'
    } else if d == 3 {
        '3'
    } else if d == 4 {
        '4'
    } else if d == 5 {
        '5'
    } else if d == 6 {
        '6'
    } else if d == 7 {
        '7'
    } else if d == 8 {
        '8'
    } else {
        '9'
    }
}

/// The decimal numeral of `n`, without leading zeros.
pub open spec fn decimal(n: nat) -> Seq<char>
    decreases n,
{
    if n < 10 {
        seq![digit(n)]
    } else {
        decimal(n / 10).push(digit(n % 10))
    }
}

/// `count` zeros.
pub open spec fn zeros(count: nat) -> Seq<char> {
    Seq::new(count, |i: int| '0')
}

/// The decimal numeral of `n`, with zeros in front to make it `width`
/// characters long; longer numerals are left as they are.
pub open spec fn padded(n: nat, width: nat) -> Seq<char> {
    if decimal(n).len() >= width {
        decimal(n)
    } else {
        zeros((width - decimal(n).len()) as nat) + decimal(n)
    }
}

/// Ten to the power `e`.
pub open spec fn pow10(e: nat) -> nat
    decreases e,
{
    if e == 0 {
        1
    } else {
        10 * pow10((e - 1) as nat)
    }
}

/// A numeral has at least one digit, and as many as the number needs: for
/// `n >= 1` its length `w` is the one with `10^(w-1) <= n < 10^w`, which is
/// the least whole number not below `log10(n + 0.1)`.
pub proof fn decimal_length(n: nat)
    ensures
        decimal(n).len() >= 1,
        n < pow10(decimal(n).len()),
        n >= 1 ==> pow10((decimal(n).len() - 1) as nat) <= n,
    decreases n,
{
    reveal_with_fuel(pow10, 2);
    if n >= 10 {
        decimal_length(n / 10);
    }
}

/// A numeral that is padded to a width is at least that wide, and is the
/// plain numeral when that is wide enough already.
pub proof fn padded_length(n: nat, width: nat)
    ensures
        padded(n, width).len() >= width,
        padded(n, width).len() >= decimal(n).len(),
        decimal(n).len() >= width ==> padded(n, width) == decimal(n),
        decimal(n).len() <= width ==> padded(n, width).len() == width,
{
}

/// The number that a decimal digit stands for; none for other characters.
pub open spec fn digit_value(c: char) -> nat {
    if c == '1' {
        1
    } else if c == '2' {
        2
    } else if c == '3' {
        3
    } else if c == '4' {
        4
    } else if c == '5' {
        5
    } else if c == '6' {
        6
    } else if c == '7' {
        7
    } else if c == '8' {
        8
    } else if c == '9' {
        9
    } else {
        0
    }
}

/// The number that a numeral stands for.
pub open spec fn numeral_value(numeral: Seq<char>) -> nat
    decreases numeral.len(),
{
    if numeral.len() == 0 {
        0
    } else {
        numeral_value(numeral.drop_last()) * 10 + digit_value(numeral.last())
    }
}

/// The numeral of a number stands for that number.
pub proof fn decimal_value(n: nat)
    ensures
        numeral_value(decimal(n)) == n,
    decreases n,
{
    if n < 10 {
        assert(decimal(n).drop_last() =~= Seq::<char>::empty());
        assert(numeral_value(decimal(n).drop_last()) == 0);
    } else {
        decimal_value(n / 10);
        assert(decimal(n).drop_last() =~= decimal(n / 10));
    }
}

/// Zeros in front do not change what a numeral stands for.
pub proof fn leading_zeros(count: nat, numeral: Seq<char>)
    ensures
        numeral_value(zeros(count) + numeral) == numeral_value(numeral),
    decreases numeral.len(), count,
{
    let all = zeros(count) + numeral;
    if numeral.len() > 0 {
        leading_zeros(count, numeral.drop_last());
        assert(all.drop_last() =~= zeros(count) + numeral.drop_last());
    } else if count > 0 {
        leading_zeros((count - 1) as nat, numeral);
        assert(all.drop_last() =~= zeros((count - 1) as nat) + numeral);
    } else {
        assert(all =~= numeral);
    }
}

/// A padded numeral stands for its number, so two numbers never share one,
/// whatever the widths.
pub proof fn padded_value(n: nat, width: nat)
    ensures
        numeral_value(padded(n, width)) == n,
{
    decimal_value(n);
    if decimal(n).len() < width {
        leading_zeros((width - decimal(n).len()) as nat, decimal(n));
    }
}

/// The character for a single decimal digit.
fn digit_of(d: usize) -> (c: char)
    requires
        d < 10,
    ensures
        c == digit(d as nat),
{
    if d == 0 {
        '0'
    } else if d == 1 {
        '1'
    } else if d == 2 {
        '2'
    } else if d == 3 {
        '3'
    } else if d == 4 {
        '4'
    } else if d == 5 {
        '5'
    } else if d == 6 {
        '6'
    } else if d == 7 {
        '7'
    } else if d == 8 {
        '8'
    } else {
        '9'
    }
}

/// The decimal numeral of `n`.
pub fn decimal_of(n: usize) -> (v: Vec<char>)
    ensures
        v@ == decimal(n as nat),
    decreases n,
{
    if n < 10 {
        let mut v: Vec<char> = Vec::new();
        v.push(digit_of(n));
        assert(v@ =~= seq![digit(n as nat)]);
        v
    } else {
        let mut v = decimal_of(n / 10);
        v.push(digit_of(n % 10));
        v
    }
}

/// The decimal numeral of `n`, padded with zeros in front to `width`
/// characters.
pub fn padded_of(n: usize, width: usize) -> (v: Vec<char>)
    ensures
        v@ == padded(n as nat, width as nat),
{
    let digits = decimal_of(n);
    let mut v: Vec<char> = Vec::new();
    if digits.len() < width {
        let fill: usize = width - digits.len();
        let mut i: usize = 0;
        while i < fill
            invariant
                i <= fill,
                v@ == zeros(i as nat),
            decreases fill - i,
        {
            v.push('0');
            i += 1;
            assert(v@ =~= zeros(i as nat));
        }
    } else {
        assert(v@ =~= Seq::<char>::empty());
    }
    crate::text::push_chars(&mut v, &digits);
    assert(Seq::<char>::empty() + digits@ =~= digits@);
    v
}

} // verus!
