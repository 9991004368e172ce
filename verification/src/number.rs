//! Numbers as they are written.

use vstd::prelude::*;

verus! {

pub open spec fn digit(d: nat) -> char {
    ('0' as u32 + d) as char
}

/// A number in decimal, without leading zeros.
pub open spec fn decimal(n: nat) -> Seq<char>
    decreases n,
{
    if n < 10 {
        seq![digit(n)]
    } else {
        decimal(n / 10).push(digit(n % 10))
    }
}

/// What a string of digits stands for.
pub open spec fn read(digits: Seq<char>) -> nat
    decreases digits.len(),
{
    if digits.len() == 0 {
        0
    } else {
        (read(digits.drop_last()) * 10 + (digits.last() as u32 - '0' as u32)) as nat
    }
}

/// A number reads back from its digits.
pub proof fn law_decimal_reads_back(n: nat)
    ensures
        read(decimal(n)) == n,
    decreases n,
{
    if n < 10 {
        reveal_with_fuel(read, 2);
        assert(decimal(n).drop_last() =~= Seq::empty());
    } else {
        law_decimal_reads_back(n / 10);
        assert(decimal(n).drop_last() =~= decimal(n / 10));
    }
}

fn digit_char(d: u64) -> (c: char)
    requires
        d < 10,
    ensures
        c == digit(d as nat),
{
    (48u8 + d as u8) as char
}

/// Writes a number in decimal at the end of a text.
pub fn push_decimal(text: &mut String, n: u64)
    ensures
        final(text)@ == old(text)@ + decimal(n as nat),
    decreases n,
{
    let ghost had = text@;
    if n >= 10 {
        push_decimal(text, n / 10);
    }
    let ghost so_far = text@;
    text.push(digit_char(n % 10));
    proof {
        if n >= 10 {
            assert(text@ =~= had + decimal((n / 10) as nat).push(digit((n % 10) as nat)));
        } else {
            assert(text@ =~= had + decimal(n as nat));
        }
    }
}

/// A number in decimal.
pub fn to_decimal(n: u64) -> (text: String)
    ensures
        text@ == decimal(n as nat),
{
    let mut text: String = String::new();
    assert(text@ =~= Seq::empty());
    push_decimal(&mut text, n);
    assert(text@ =~= decimal(n as nat));
    text
}

}
