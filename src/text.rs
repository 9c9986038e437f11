//! Decimal and hexadecimal text, proved against their digit sequences.

use vstd::prelude::*;
use vstd::string::StringExecFns;

verus! {

pub open spec fn digit_char(d: int) -> char {
    if d == 0 {
        '0'
    } else if d == 1 {
        '1'
    } else if d == 2 {
        '2'
    } else if d == 3 {
        '3'
    } else if d == 4 {
        '4'
    } else if d == 5 {
        '5'
    } else if d == 6 {
        '6'
    } else if d == 7 {
        '7'
    } else if d == 8 {
        '8'
    } else if d == 9 {
        '9'
    } else if d == 10 {
        'a'
    } else if d == 11 {
        'b'
    } else if d == 12 {
        'c'
    } else if d == 13 {
        'd'
    } else if d == 14 {
        'e'
    } else {
        'f'
    }
}

/// Decimal digits of `n`, most significant first, without leading zeros.
pub open spec fn dec(n: nat) -> Seq<char>
    decreases n,
{
    if n < 10 {
        seq![digit_char(n as int)]
    } else {
        dec(n / 10).push(digit_char((n % 10) as int))
    }
}

/// Decimal text of a signed value.
pub open spec fn sdec(i: int) -> Seq<char> {
    if i < 0 {
        seq!['-'] + dec((-i) as nat)
    } else {
        dec(i as nat)
    }
}

/// Two lower-case hexadecimal digits of a byte.
pub open spec fn hex2(b: u8) -> Seq<char> {
    seq![digit_char(b as int / 16), digit_char(b as int % 16)]
}

/// Milliseconds written as seconds with three decimals (`1.920`).
pub open spec fn secs3(ms: nat) -> Seq<char> {
    let f = ms % 1000;
    dec(ms / 1000) + seq!['.', digit_char((f / 100) as int), digit_char(((f / 10) % 10) as int), digit_char((f % 10) as int)]
}

/// A tick count of the 90 kHz clock, rounded to milliseconds.
pub open spec fn ticks_to_ms(t: nat) -> nat {
    (t + 45) / 90
}

/// The text of one digit (`d < 16`).
pub fn digit_str(d: u64) -> (r: &'static str)
    requires
        d < 16,
    ensures
        r@ == seq![digit_char(d as int)],
{
    proof {
        reveal_strlit("0");
        reveal_strlit("1");
        reveal_strlit("2");
        reveal_strlit("3");
        reveal_strlit("4");
        reveal_strlit("5");
        reveal_strlit("6");
        reveal_strlit("7");
        reveal_strlit("8");
        reveal_strlit("9");
        reveal_strlit("a");
        reveal_strlit("b");
        reveal_strlit("c");
        reveal_strlit("d");
        reveal_strlit("e");
        reveal_strlit("f");
    }
    match d {
        0 => "0",
        1 => "1",
        2 => "2",
        3 => "3",
        4 => "4",
        5 => "5",
        6 => "6",
        7 => "7",
        8 => "8",
        9 => "9",
        10 => "a",
        11 => "b",
        12 => "c",
        13 => "d",
        14 => "e",
        _ => "f",
    }
}

/// Appends the decimal text of `n`.
pub fn push_dec(text: &mut String, n: u64)
    ensures
        final(text)@ == old(text)@ + dec(n as nat),
    decreases n,
{
    if n >= 10 {
        push_dec(text, n / 10);
    }
    text.append(digit_str(n % 10));
    assert(text@ =~= old(text)@ + dec(n as nat));
}

/// Appends the decimal text of a signed value.
pub fn push_sdec(text: &mut String, i: i64)
    ensures
        final(text)@ == old(text)@ + sdec(i as int),
{
    if i < 0 {
        proof {
            reveal_strlit("-");
        }
        text.append("-");
        push_dec(text, (0i128 - i as i128) as u64);
        assert(text@ =~= old(text)@ + sdec(i as int));
    } else {
        push_dec(text, i as u64);
    }
}

/// Appends two hexadecimal digits of a byte.
pub fn push_hex2(text: &mut String, b: u8)
    ensures
        final(text)@ == old(text)@ + hex2(b),
{
    text.append(digit_str((b / 16) as u64));
    text.append(digit_str((b % 16) as u64));
    assert(text@ =~= old(text)@ + hex2(b));
}

/// Appends milliseconds as seconds with three decimals.
pub fn push_secs3(text: &mut String, ms: u64)
    ensures
        final(text)@ == old(text)@ + secs3(ms as nat),
{
    proof {
        reveal_strlit(".");
    }
    push_dec(text, ms / 1000);
    let f = ms % 1000;
    text.append(".");
    text.append(digit_str(f / 100));
    text.append(digit_str((f / 10) % 10));
    text.append(digit_str(f % 10));
    assert(text@ =~= old(text)@ + secs3(ms as nat));
}

/// Rounds a 90 kHz tick count to milliseconds.
pub fn ms_of_ticks(t: u64) -> (r: u64)
    ensures
        r == ticks_to_ms(t as nat),
{
    ((t as u128 + 45) / 90) as u64
}

} // verus!
