//! Whole numbers as decimal text, both ways.

use vstd::prelude::*;

verus! {

/// The character of the digit `d`.
pub open spec fn digit(d: nat) -> char {
    if d == 0 {
        '0'
    } else if d == 1 {
        '1'
    } else if d == 2 {
        '2'
    } else if d == 3 {
        '3'
    } else if d == 4 {
        '4'
    } else if d == 5 {
        '5'
    } else if d == 6 {
        '6'
    } else if d == 7 {
        '7'
    } else if d == 8 {
        '8'
    } else {
        '9'
    }
}

/// `c` is one of the ten digits.
pub open spec fn is_digit(c: char) -> bool {
    '0' <= c <= '9'
}

/// The digit that `c` stands for.
pub open spec fn digit_value(c: char) -> nat {
    (c as u32 - '0' as u32) as nat
}

/// `n` written in decimal digits, without leading zeros.
pub open spec fn decimal(n: nat) -> Seq<char>
    decreases n,
{
    if n < 10 {
        seq![digit(n)]
    } else {
        decimal(n / 10).push(digit(n % 10))
    }
}

/// The digits of `n` that stand before others: none for zero.
pub open spec fn leading(n: nat) -> Seq<char> {
    if n == 0 {
        Seq::empty()
    } else {
        decimal(n)
    }
}

/// The number that the digits `s` stand for, read as decimal.
pub open spec fn digits_value(s: Seq<char>) -> nat
    decreases s.len(),
{
    if s.len() == 0 {
        0
    } else {
        digits_value(s.drop_last()) * 10 + digit_value(s.last())
    }
}

/// `s` holds decimal digits only.
pub open spec fn all_digits(s: Seq<char>) -> bool {
    forall|i: int| 0 <= i < s.len() ==> is_digit(#[trigger] s[i])
}

/// `s` begins with a sign.
pub open spec fn has_sign(s: Seq<char>) -> bool {
    s.len() > 0 && (s[0] == '-' || s[0] == '+')
}

/// `s` without its sign.
pub open spec fn unsigned_part(s: Seq<char>) -> Seq<char> {
    if has_sign(s) {
        s.skip(1)
    } else {
        s
    }
}

/// The number that `s` stands for before it is held to any range: an
/// optional sign, then the digits.
pub open spec fn signed_value(s: Seq<char>) -> int {
    if s.len() > 0 && s[0] == '-' {
        -(digits_value(unsigned_part(s)) as int)
    } else {
        digits_value(unsigned_part(s)) as int
    }
}

/// The 64-bit integer that `s` stands for: one sign at most, then one
/// decimal digit at least and nothing else, and a value within the range.
pub open spec fn parsed_i64(s: Seq<char>) -> Option<i64> {
    if unsigned_part(s).len() > 0 && all_digits(unsigned_part(s)) && i64::MIN <= signed_value(s)
        <= i64::MAX {
        Some(signed_value(s) as i64)
    } else {
        None
    }
}

/// Reading digits one more at a time never gives less.
pub proof fn lemma_digits_value_grows(s: Seq<char>, k: int)
    requires
        0 <= k <= s.len(),
    ensures
        digits_value(s.take(k)) <= digits_value(s),
    decreases s.len() - k,
{
    if k < s.len() {
        lemma_digits_value_grows(s, k + 1);
        assert(s.take(k + 1).drop_last() =~= s.take(k));
    } else {
        assert(s.take(k) =~= s);
    }
}

/// The character of the digit `d`.
pub fn digit_char(d: u8) -> (c: char)
    requires
        d < 10,
    ensures
        c == digit(d as nat),
        is_digit(c),
        digit_value(c) == d,
{
    if d == 0 {
        '0'
    } else if d == 1 {
        '1'
    } else if d == 2 {
        '2'
    } else if d == 3 {
        '3'
    } else if d == 4 {
        '4'
    } else if d == 5 {
        '5'
    } else if d == 6 {
        '6'
    } else if d == 7 {
        '7'
    } else if d == 8 {
        '8'
    } else {
        '9'
    }
}

/// `n` written in decimal digits.
pub fn decimal_chars(n: u64) -> (out: Vec<char>)
    ensures
        out@ == decimal(n as nat),
{
    let mut out: Vec<char> = Vec::new();
    out.push(digit_char((n % 10) as u8));
    let mut rest: u64 = n / 10;
    proof {
        assert(decimal(n as nat) =~= leading(rest as nat) + out@);
    }
    while rest > 0
        invariant
            decimal(n as nat) == leading(rest as nat) + out@,
        decreases rest,
    {
        let ghost before = out@;
        let c = digit_char((rest % 10) as u8);
        out.insert(0, c);
        proof {
            assert(decimal(rest as nat) =~= leading((rest / 10) as nat).push(c));
            assert(leading((rest / 10) as nat).push(c) + before =~= leading((rest / 10) as nat)
                + out@);
        }
        rest = rest / 10;
    }
    proof {
        assert(leading(0) + out@ =~= out@);
    }
    out
}

/// Reads `s` as a 64-bit integer written in decimal.
pub fn parse_i64(s: &Vec<char>) -> (r: Option<i64>)
    ensures
        r == parsed_i64(s@),
{
    let signed = s.len() > 0 && (s[0] == '-' || s[0] == '+');
    let negative = s.len() > 0 && s[0] == '-';
    let start: usize = if signed {
        1
    } else {
        0
    };
    let ghost body = unsigned_part(s@);
    if start == s.len() {
        return None;
    }
    let mut acc: u64 = 0;
    let mut i: usize = start;
    proof {
        assert(body.take(0) =~= Seq::<char>::empty());
    }
    while i < s.len()
        invariant
            start <= i <= s.len(),
            body == s@.skip(start as int),
            body == unsigned_part(s@),
            negative == (s@.len() > 0 && s@[0] == '-'),
            all_digits(body.take(i - start)),
            acc == digits_value(body.take(i - start)),
            acc <= 0x8000_0000_0000_0000,
        decreases s.len() - i,
    {
        let c = s[i];
        let ghost k = i - start;
        proof {
            assert(body[k] == c);
            assert(body.take(k + 1).drop_last() =~= body.take(k));
            assert(body.take(k + 1).last() == c);
        }
        if !('0' <= c && c <= '9') {
            proof {
                assert(!is_digit(body[k]));
            }
            return None;
        }
        let d: u64 = (c as u32 - '0' as u32) as u64;
        if acc > (0x8000_0000_0000_0000 - d) / 10 {
            proof {
                assert(digits_value(body.take(k + 1)) > 0x8000_0000_0000_0000);
                lemma_digits_value_grows(body, k + 1);
            }
            return None;
        }
        acc = acc * 10 + d;
        proof {
            assert forall|j: int| 0 <= j < k + 1 implies is_digit(
                #[trigger] body.take(k + 1)[j],
            ) by {
                if j < k {
                    assert(body.take(k + 1)[j] == body.take(k)[j]);
                }
            }
        }
        i += 1;
    }
    proof {
        assert(body.take(s.len() - start) =~= body);
    }
    if negative {
        if acc == 0x8000_0000_0000_0000 {
            Some(i64::MIN)
        } else {
            Some(-(acc as i64))
        }
    } else if acc == 0x8000_0000_0000_0000 {
        None
    } else {
        Some(acc as i64)
    }
}

} // verus!
