//! Decimal numbers in request paths and queries, read as `str::parse` reads them.

use vstd::prelude::*;

verus! {

pub open spec fn is_digit(c: u8) -> bool {
    0x30 <= c <= 0x39
}

pub open spec fn all_digits(s: Seq<u8>) -> bool {
    forall|i: int| 0 <= i < s.len() ==> is_digit(#[trigger] s[i])
}

/// The value of a run of decimal digits.
pub open spec fn digits_value(s: Seq<u8>) -> int
    decreases s.len(),
{
    if s.len() == 0 {
        0
    } else {
        digits_value(s.drop_last()) * 10 + (s.last() - 0x30)
    }
}

/// An optional `+`, then at least one digit, with a value of at most `max`.
pub open spec fn parse_unsigned(s: Seq<u8>, max: int) -> Option<int> {
    let body = if s.len() > 0 && s[0] == 0x2b { s.drop_first() } else { s };
    if body.len() > 0 && all_digits(body) && digits_value(body) <= max {
        Some(digits_value(body))
    } else {
        None
    }
}

/// An optional sign, then at least one digit, with a value in range of `i64`.
pub open spec fn parse_i64(s: Seq<u8>) -> Option<int> {
    if s.len() > 0 && s[0] == 0x2d {
        match parse_unsigned_body(s.drop_first(), 0x8000_0000_0000_0000) {
            Some(v) => Some(-v),
            None => None,
        }
    } else {
        parse_unsigned(s, 0x7fff_ffff_ffff_ffff)
    }
}

/// At least one digit (no sign), with a value of at most `max`.
pub open spec fn parse_unsigned_body(s: Seq<u8>, max: int) -> Option<int> {
    if s.len() > 0 && all_digits(s) && digits_value(s) <= max {
        Some(digits_value(s))
    } else {
        None
    }
}

pub proof fn lemma_digits_value_grows(s: Seq<u8>, i: int)
    requires
        0 <= i <= s.len(),
        all_digits(s),
    ensures
        0 <= digits_value(s.take(i)) <= digits_value(s),
    decreases s.len() - i,
{
    if i < s.len() {
        lemma_digits_value_grows(s, i + 1);
        assert(s.take(i + 1).drop_last() =~= s.take(i));
    } else {
        assert(s.take(i) =~= s);
        lemma_digits_nonneg(s);
    }
}

pub proof fn lemma_digits_nonneg(s: Seq<u8>)
    requires
        all_digits(s),
    ensures
        digits_value(s) >= 0,
    decreases s.len(),
{
    if s.len() > 0 {
        lemma_digits_nonneg(s.drop_last());
    }
}

/// Reads digits only, at most `max`.
pub fn parse_digits(s: &[u8], max: u64) -> (r: Option<u64>)
    ensures
        r matches Some(x) ==> x <= max,
        parse_unsigned_body(s@, max as int) matches Some(v) ==> v >= 0,
        match parse_unsigned_body(s@, max as int) {
            Some(v) => r == Some(v as u64),
            None => r is None,
        },
{
    let n = s.len();
    proof {
        if all_digits(s@) {
            lemma_digits_nonneg(s@);
        }
    }
    if n == 0 {
        return None;
    }
    let mut v: u64 = 0;
    let mut i: usize = 0;
    while i < n
        invariant
            n == s@.len(),
            i <= n,
            all_digits(s@.take(i as int)),
            v == digits_value(s@.take(i as int)),
            v <= max,
        decreases n - i,
    {
        let c = s[i];
        proof {
            assert(s@.take(i + 1).drop_last() =~= s@.take(i as int));
            assert(s@.take(i + 1).last() == c);
        }
        if c < 0x30 || c > 0x39 {
            assert(!all_digits(s@));
            return None;
        }
        let d = (c - 0x30) as u64;
        if d > max || v > (max - d) / 10 {
            proof {
                assert(all_digits(s@.take(i + 1)));
                assert(digits_value(s@.take(i + 1)) > max) by (nonlinear_arith)
                    requires
                        d > max || v > (max - d) / 10,
                        digits_value(s@.take(i + 1)) == v * 10 + d,
                        v >= 0,
                ;
                if all_digits(s@) {
                    lemma_digits_value_grows(s@, i + 1);
                }
            }
            return None;
        }
        assert(v * 10 + d <= max) by (nonlinear_arith)
            requires
                v <= (max - d) / 10,
                d <= 9,
        ;
        v = v * 10 + d;
        i = i + 1;
    }
    assert(s@.take(n as int) =~= s@);
    Some(v)
}

/// Reads a `usize` or `u64` the way `str::parse` does.
pub fn parse_u64(s: &[u8], max: u64) -> (r: Option<u64>)
    ensures
        r matches Some(x) ==> x <= max,
        parse_unsigned(s@, max as int) matches Some(v) ==> v >= 0,
        match parse_unsigned(s@, max as int) {
            Some(v) => r == Some(v as u64),
            None => r is None,
        },
{
    if s.len() > 0 && s[0] == 0x2b {
        let (_, body) = s.split_at(1);
        assert(body@ =~= s@.drop_first());
        parse_digits(body, max)
    } else {
        parse_digits(s, max)
    }
}

/// Reads an `i64` the way `str::parse` does.
pub fn parse_i64_bytes(s: &[u8]) -> (r: Option<i64>)
    ensures
        match parse_i64(s@) {
            Some(v) => r == Some(v as i64),
            None => r is None,
        },
{
    if s.len() > 0 && s[0] == 0x2d {
        let (_, body) = s.split_at(1);
        assert(body@ =~= s@.drop_first());
        let p = parse_digits(body, 0x8000_0000_0000_0000);
        match p {
            Some(v) => {
                assert(parse_i64(s@) == Some(-(v as int)));
                if v == 0x8000_0000_0000_0000 {
                    Some(i64::MIN)
                } else {
                    let w = v as i64;
                    Some(-w)
                }
            },
            None => {
                assert(parse_unsigned_body(s@.drop_first(), 0x8000_0000_0000_0000) is None);
                None
            },
        }
    } else {
        match parse_u64(s, 0x7fff_ffff_ffff_ffff) {
            Some(v) => Some(v as i64),
            None => None,
        }
    }
}

} // verus!
