//! Decimal numbers: rendering as `to_string` does and parsing as
//! `str::parse` does for unsigned integers.

use vstd::prelude::*;

use crate::text::{chars_of, string_from_chars};

verus! {

/// The decimal digit character for `d` (below ten).
pub open spec fn digit_char(d: nat) -> char {
    if d == 0 {
        '0'
    } else if d == 1 {
        '1'
    } else if d == 2 {
        '2'
    } else if d == 3 {
        '3'
    } else if d == 4 {
        '4'
    } else if d == 5 {
        '5'
    } else if d == 6 {
        '6'
    } else if d == 7 {
        '7'
    } else if d == 8 {
        '8'
    } else {
        '9'
    }
}

/// The value of a decimal digit character, if it is one.
pub open spec fn char_digit(c: char) -> Option<nat> {
    if c == '0' {
        Some(0)
    } else if c == '1' {
        Some(1)
    } else if c == '2' {
        Some(2)
    } else if c == '3' {
        Some(3)
    } else if c == '4' {
        Some(4)
    } else if c == '5' {
        Some(5)
    } else if c == '6' {
        Some(6)
    } else if c == '7' {
        Some(7)
    } else if c == '8' {
        Some(8)
    } else if c == '9' {
        Some(9)
    } else {
        None
    }
}

/// The decimal spelling of `n`, without leading zeros.
pub open spec fn decimal(n: nat) -> Seq<char>
    decreases n,
{
    if n < 10 {
        seq![digit_char(n)]
    } else {
        decimal(n / 10).push(digit_char(n % 10))
    }
}

fn digit_to_char(d: u64) -> (c: char)
    requires
        d < 10,
    ensures
        c == digit_char(d as nat),
{
    if d == 0 {
        '0'
    } else if d == 1 {
        '1'
    } else if d == 2 {
        '2'
    } else if d == 3 {
        '3'
    } else if d == 4 {
        '4'
    } else if d == 5 {
        '5'
    } else if d == 6 {
        '6'
    } else if d == 7 {
        '7'
    } else if d == 8 {
        '8'
    } else {
        '9'
    }
}

fn char_to_digit(c: char) -> (res: Option<u64>)
    ensures
        match res {
            Some(d) => char_digit(c) == Some(d as nat) && d < 10,
            None => char_digit(c) is None,
        },
{
    if c == '0' {
        Some(0)
    } else if c == '1' {
        Some(1)
    } else if c == '2' {
        Some(2)
    } else if c == '3' {
        Some(3)
    } else if c == '4' {
        Some(4)
    } else if c == '5' {
        Some(5)
    } else if c == '6' {
        Some(6)
    } else if c == '7' {
        Some(7)
    } else if c == '8' {
        Some(8)
    } else if c == '9' {
        Some(9)
    } else {
        None
    }
}

/// The decimal spelling of `n`, as `n.to_string()` gives it.
pub fn u64_to_decimal(n: u64) -> (res: String)
    ensures
        res@ == decimal(n as nat),
{
    let mut m = n;
    let mut suffix: Vec<char> = Vec::new();
    while m >= 10
        invariant
            decimal(n as nat) == decimal(m as nat) + suffix@,
        decreases m,
    {
        let d = digit_to_char(m % 10);
        let ghost old_suffix = suffix@;
        suffix.insert(0, d);
        assert(decimal(m as nat) == decimal((m / 10) as nat).push(digit_char((m % 10) as nat)));
        assert(decimal((m / 10) as nat).push(d) + old_suffix =~= decimal((m / 10) as nat) + suffix@);
        m = m / 10;
    }
    let first = digit_to_char(m);
    suffix.insert(0, first);
    assert(decimal(m as nat) + suffix@.drop_first() =~= suffix@);
    string_from_chars(&suffix)
}

/// The decimal spelling of `n`.
pub fn usize_to_decimal(n: usize) -> (res: String)
    ensures
        res@ == decimal(n as nat),
{
    u64_to_decimal(n as u64)
}

/// Why an unsigned integer could not be parsed, as `IntErrorKind` says.
#[derive(Debug, Clone, Copy, PartialEq, Eq, Structural)]
pub enum IntError {
    /// The text is empty.
    Empty,
    /// A character is not a decimal digit.
    InvalidDigit,
    /// The value does not fit the type.
    PosOverflow,
}

impl IntError {
    /// The description that `ParseIntError` displays.
    pub fn message(&self) -> (res: &'static str)
        ensures
            res@ == self.spec_message(),
    {
        match self {
            IntError::Empty => "cannot parse integer from empty string",
            IntError::InvalidDigit => "invalid digit found in string",
            IntError::PosOverflow => "number too large to fit in target type",
        }
    }

    pub closed spec fn spec_message(&self) -> Seq<char> {
        match self {
            IntError::Empty => "cannot parse integer from empty string"@,
            IntError::InvalidDigit => "invalid digit found in string"@,
            IntError::PosOverflow => "number too large to fit in target type"@,
        }
    }
}

/// Reads digits of `s` from `i` onward on top of `acc`, failing at the first
/// non-digit or at the first digit that takes the value past `max`.
pub open spec fn digits_scan(s: Seq<char>, i: int, acc: nat, max: nat) -> Result<nat, IntError>
    decreases s.len() - i,
{
    if i >= s.len() || i < 0 {
        Ok(acc)
    } else {
        match char_digit(s[i]) {
            None => Err(IntError::InvalidDigit),
            Some(d) => if acc * 10 + d > max {
                Err(IntError::PosOverflow)
            } else {
                digits_scan(s, i + 1, acc * 10 + d, max)
            },
        }
    }
}

/// The unsigned value of `s` up to `max`, as `str::parse` reads it: an
/// optional leading `+`, then at least one decimal digit.
pub open spec fn parse_unsigned_spec(s: Seq<char>, max: nat) -> Result<nat, IntError> {
    if s.len() == 0 {
        Err(IntError::Empty)
    } else {
        let start: int = if s[0] == '+' {
            1
        } else {
            0
        };
        if start == 1 && s.len() == 1 {
            Err(IntError::InvalidDigit)
        } else {
            digits_scan(s, start, 0, max)
        }
    }
}

/// Parses an unsigned decimal no larger than `max`.
pub fn parse_unsigned(s: &str, max: u64) -> (res: Result<u64, IntError>)
    ensures
        match res {
            Ok(v) => parse_unsigned_spec(s@, max as nat) == Ok::<nat, IntError>(v as nat) && v <= max,
            Err(e) => parse_unsigned_spec(s@, max as nat) == Err::<nat, IntError>(e),
        },
{
    let cs = chars_of(s);
    if cs.len() == 0 {
        return Err(IntError::Empty);
    }
    let mut i: usize = if cs[0] == '+' {
        1
    } else {
        0
    };
    if i == 1 && cs.len() == 1 {
        return Err(IntError::InvalidDigit);
    }
    let mut acc: u64 = 0;
    while i < cs.len()
        invariant
            i <= cs.len(),
            cs@ == s@,
            acc <= max,
            parse_unsigned_spec(s@, max as nat) == digits_scan(cs@, i as int, acc as nat, max as nat),
        decreases cs.len() - i,
    {
        match char_to_digit(cs[i]) {
            None => return Err(IntError::InvalidDigit),
            Some(d) => {
                if d > max {
                    return Err(IntError::PosOverflow);
                }
                if acc > (max - d) / 10 {
                    assert(acc * 10 + d > max) by (nonlinear_arith)
                        requires
                            acc > (max - d) / 10,
                            d <= max,
                    {
                    }
                    return Err(IntError::PosOverflow);
                }
                assert(acc * 10 + d <= max) by (nonlinear_arith)
                    requires
                        acc <= (max - d) / 10,
                        d < 10,
                {
                }
                acc = acc * 10 + d;
                i = i + 1;
            },
        }
    }
    Ok(acc)
}

/// Parses a `usize` as `str::parse::<usize>` does.
pub fn parse_usize(s: &str) -> (res: Result<usize, IntError>)
    ensures
        match res {
            Ok(v) => parse_unsigned_spec(s@, usize::MAX as nat) == Ok::<nat, IntError>(v as nat),
            Err(e) => parse_unsigned_spec(s@, usize::MAX as nat) == Err::<nat, IntError>(e),
        },
{
    match parse_unsigned(s, usize::MAX as u64) {
        Ok(v) => Ok(v as usize),
        Err(e) => Err(e),
    }
}

/// Parses a `u64` as `str::parse::<u64>` does.
pub fn parse_u64(s: &str) -> (res: Result<u64, IntError>)
    ensures
        match res {
            Ok(v) => parse_unsigned_spec(s@, u64::MAX as nat) == Ok::<nat, IntError>(v as nat),
            Err(e) => parse_unsigned_spec(s@, u64::MAX as nat) == Err::<nat, IntError>(e),
        },
{
    parse_unsigned(s, u64::MAX)
}

} // verus!

verus! {

/// Ten to the power `k`.
pub open spec fn ten_pow(k: nat) -> nat
    decreases k,
{
    if k == 0 {
        1
    } else {
        10 * ten_pow((k - 1) as nat)
    }
}

/// A number below `10^k` has at most `k` decimal digits.
pub proof fn lemma_decimal_len_bound(n: nat, k: nat)
    requires
        k >= 1,
        n < ten_pow(k),
    ensures
        decimal(n).len() <= k,
    decreases n,
{
    if n >= 10 {
        assert(k >= 2) by {
            if k == 1 {
                assert(ten_pow(1) == 10 * ten_pow(0));
            }
        }
        let q = ten_pow((k - 1) as nat);
        assert(n / 10 < q) by (nonlinear_arith)
            requires
                n < 10 * q,
        {
        }
        lemma_decimal_len_bound(n / 10, (k - 1) as nat);
    }
}

/// A `u64` has at most twenty decimal digits.
pub proof fn lemma_decimal_u64_len(n: nat)
    requires
        n <= u64::MAX,
    ensures
        decimal(n).len() <= 20,
{
    reveal_with_fuel(ten_pow, 21);
    assert(ten_pow(20) == 100000000000000000000);
    lemma_decimal_len_bound(n, 20);
}

} // verus!

verus! {

proof fn lemma_digit_roundtrip(d: nat)
    requires
        d < 10,
    ensures
        char_digit(digit_char(d)) == Some(d),
{
}

/// Every character of a decimal spelling is a digit.
pub proof fn lemma_decimal_digits(n: nat)
    ensures
        decimal(n).len() > 0,
        forall|i: int| 0 <= i < decimal(n).len() ==> (#[trigger] char_digit(decimal(n)[i])) is Some,
    decreases n,
{
    if n < 10 {
        lemma_digit_roundtrip(n);
    } else {
        lemma_decimal_digits(n / 10);
        lemma_digit_roundtrip(n % 10);
        assert forall|i: int| 0 <= i < decimal(n).len() implies (#[trigger] char_digit(decimal(n)[i])) is Some by {
            if i < decimal(n / 10).len() {
                assert(decimal(n)[i] == decimal(n / 10)[i]);
            }
        }
    }
}

proof fn lemma_digits_scan_push(s: Seq<char>, c: char, i: int, acc: nat, max: nat, v: nat, d: nat)
    requires
        0 <= i <= s.len(),
        digits_scan(s, i, acc, max) == Ok::<nat, IntError>(v),
        char_digit(c) == Some(d),
    ensures
        digits_scan(s.push(c), i, acc, max) == if v * 10 + d > max {
            Err::<nat, IntError>(IntError::PosOverflow)
        } else {
            Ok::<nat, IntError>(v * 10 + d)
        },
    decreases s.len() - i,
{
    let t = s.push(c);
    if i < s.len() {
        assert(t[i] == s[i]);
        let d0 = char_digit(s[i])->0;
        lemma_digits_scan_push(s, c, i + 1, acc * 10 + d0, max, v, d);
    } else {
        assert(t[i] == c);
        assert(v == acc);
        if acc * 10 + d <= max {
            assert(digits_scan(t, i + 1, acc * 10 + d, max) == Ok::<nat, IntError>(acc * 10 + d));
        }
    }
}

proof fn lemma_digits_scan_decimal(n: nat, max: nat)
    requires
        n <= max,
    ensures
        digits_scan(decimal(n), 0, 0, max) == Ok::<nat, IntError>(n),
    decreases n,
{
    if n < 10 {
        lemma_digit_roundtrip(n);
        let s = decimal(n);
        assert(digits_scan(s, 1, n, max) == Ok::<nat, IntError>(n));
    } else {
        lemma_digits_scan_decimal(n / 10, max);
        lemma_digit_roundtrip(n % 10);
        lemma_digits_scan_push(decimal(n / 10), digit_char(n % 10), 0, 0, max, n / 10, n % 10);
    }
}

/// Reading back the decimal spelling of a number gives the number, when
/// it fits the bound.
pub proof fn lemma_parse_decimal(n: nat, max: nat)
    requires
        n <= max,
    ensures
        parse_unsigned_spec(decimal(n), max) == Ok::<nat, IntError>(n),
{
    lemma_decimal_digits(n);
    assert(char_digit(decimal(n)[0]) is Some);
    lemma_digits_scan_decimal(n, max);
}

} // verus!
