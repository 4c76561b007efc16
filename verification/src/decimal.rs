//! Signed decimal integers, read from characters and written as characters.

use vstd::prelude::*;

verus! {

/// Whether `c` is one of the ten ASCII digits.
pub open spec fn is_digit(c: char) -> bool {
    '0' <= c <= '9'
}

/// The value of a digit.
pub open spec fn digit_value(c: char) -> int {
    c as int - '0' as int
}

/// The digit with the given value.
pub open spec fn digit_char(d: int) -> char {
    ('0' as int + d) as char
}

/// Whether every character of `s` is a digit.
pub open spec fn all_digits(s: Seq<char>) -> bool {
    forall|i: int| 0 <= i < s.len() ==> is_digit(#[trigger] s[i])
}

/// The number that a string of digits writes, most significant digit first.
pub open spec fn digits_value(s: Seq<char>) -> int
    decreases s.len(),
{
    if s.len() == 0 {
        0
    } else {
        10 * digits_value(s.drop_last()) + digit_value(s.last())
    }
}

/// The integer that `s` writes: an optional sign, `+` or `-`, and then one or
/// more digits.  Leading zeros are allowed.  Anything else writes no integer.
pub open spec fn int_of(s: Seq<char>) -> Option<int> {
    let signed = s.len() > 0 && (s[0] == '-' || s[0] == '+');
    let digits = if signed {
        s.drop_first()
    } else {
        s
    };
    if digits.len() == 0 || !all_digits(digits) {
        None
    } else if signed && s[0] == '-' {
        Some(-digits_value(digits))
    } else {
        Some(digits_value(digits))
    }
}

/// The integer that `s` writes, where it fits in eight bits.
pub open spec fn small_int_of(s: Seq<char>) -> Option<int> {
    match int_of(s) {
        Some(v) => if i8::MIN <= v <= i8::MAX {
            Some(v)
        } else {
            None
        },
        None => None,
    }
}

/// The digits of `n`, most significant first, without leading zeros.
pub open spec fn digits_of(n: nat) -> Seq<char>
    decreases n,
{
    if n < 10 {
        seq![digit_char(n as int)]
    } else {
        digits_of(n / 10).push(digit_char((n % 10) as int))
    }
}

/// How `v` is written: a `-` for a negative number, then the digits of its
/// magnitude.
pub open spec fn decimal(v: int) -> Seq<char> {
    if v < 0 {
        seq!['-'] + digits_of((-v) as nat)
    } else {
        digits_of(v as nat)
    }
}

/// The digits of a number are digits, and write that number.
pub proof fn lemma_digits_round_trip(n: nat)
    ensures
        digits_of(n).len() > 0,
        all_digits(digits_of(n)),
        digits_value(digits_of(n)) == n,
    decreases n,
{
    if n < 10 {
        assert(digits_value(digits_of(n).drop_last()) == 0);
    } else {
        lemma_digits_round_trip(n / 10);
        assert(digits_of(n).drop_last() == digits_of(n / 10));
    }
}

/// Reading what was written gives the number back.
pub proof fn lemma_decimal_round_trip(v: int)
    ensures
        int_of(decimal(v)) == Some(v),
{
    if v < 0 {
        let n = (-v) as nat;
        lemma_digits_round_trip(n);
        assert(decimal(v).drop_first() == digits_of(n));
    } else {
        lemma_digits_round_trip(v as nat);
    }
}

/// Reads a signed decimal integer of eight bits.  Returns `None` where `s`
/// writes no integer, or one that does not fit.
pub fn parse_i8(s: &[char]) -> (r: Option<i8>)
    ensures
        small_int_of(s@) == match r {
            Some(v) => Some(v as int),
            None => None,
        },
{
    let n = s.len();
    if n == 0 {
        return None;
    }
    let negative = s[0] == '-';
    let start: usize = if s[0] == '-' || s[0] == '+' {
        1
    } else {
        0
    };
    if start == n {
        return None;
    }
    let ghost digits = s@.subrange(start as int, n as int);
    assert(digits == if start == 1 {
        s@.drop_first()
    } else {
        s@
    });
    let ghost sign: int = if negative {
        -1
    } else {
        1
    };
    // The digits read so far, capped: a magnitude of 200 is out of range
    // whatever follows.
    let mut acc: i16 = 0;
    let mut j: usize = start;
    while j < n
        invariant
            start <= j <= n,
            n == s.len(),
            digits == s@.subrange(start as int, n as int),
            int_of(s@) == if all_digits(digits) {
                Some(sign * digits_value(digits))
            } else {
                None
            },
            all_digits(s@.subrange(start as int, j as int)),
            0 <= acc <= 200,
            acc < 200 ==> acc == digits_value(s@.subrange(start as int, j as int)),
            acc == 200 ==> digits_value(s@.subrange(start as int, j as int)) >= 200,
        decreases n - j,
    {
        let c = s[j];
        if !('0' <= c && c <= '9') {
            assert(!is_digit(digits[j - start]));
            return None;
        }
        let d: i16 = (c as u8 - '0' as u8) as i16;
        assert(s@.subrange(start as int, j as int + 1).drop_last() == s@.subrange(
            start as int,
            j as int,
        ));
        acc = acc * 10 + d;
        if acc > 200 {
            acc = 200;
        }
        j += 1;
    }
    let value: i16 = if negative {
        -acc
    } else {
        acc
    };
    if value < -128 || value > 127 {
        None
    } else {
        Some(value as i8)
    }
}

/// The one-character string for a digit.
fn digit_str(d: u8) -> (s: &'static str)
    requires
        d < 10,
    ensures
        s@ == seq![digit_char(d as int)],
{
    proof {
        reveal_strlit("0");
        reveal_strlit("1");
        reveal_strlit("2");
        reveal_strlit("3");
        reveal_strlit("4");
        reveal_strlit("5");
        reveal_strlit("6");
        reveal_strlit("7");
        reveal_strlit("8");
        reveal_strlit("9");
    }
    match d {
        0 => "0",
        1 => "1",
        2 => "2",
        3 => "3",
        4 => "4",
        5 => "5",
        6 => "6",
        7 => "7",
        8 => "8",
        _ => "9",
    }
}

/// Writes `v` in decimal.
pub fn render_i8(v: i8) -> (s: String)
    ensures
        s@ == decimal(v as int),
{
    let mut s = String::new();
    let magnitude: u8 = if v < 0 {
        proof {
            reveal_strlit("-");
        }
        s.append("-");
        (-(v as i16)) as u8
    } else {
        v as u8
    };
    proof {
        reveal_with_fuel(digits_of, 3);
    }
    if magnitude >= 100 {
        s.append(digit_str(magnitude / 100));
    }
    if magnitude >= 10 {
        s.append(digit_str(magnitude / 10 % 10));
    }
    s.append(digit_str(magnitude % 10));
    s
}

} // verus!
