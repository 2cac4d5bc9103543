//! Numbers as text: decimal output, hexadecimal digits, and reading unsigned
//! numbers.

use crate::text::string_of;
use vstd::prelude::*;

verus! {

/// The digit character of a value below ten.
pub open spec fn digit(d: int) -> char {
    (48 + d) as char
}

/// The digit character of a value below ten.
pub fn digit_char(d: u8) -> (r: char)
    requires
        d < 10,
    ensures
        r == digit(d as int),
{
    (48 + d) as char
}

/// The decimal digits of `n`, most significant first.
pub open spec fn decimal(n: nat) -> Seq<char>
    decreases n,
{
    if n < 10 {
        seq![digit(n as int)]
    } else {
        decimal(n / 10).push(digit((n % 10) as int))
    }
}

/// The decimal digits of `n` as characters.
fn decimal_chars(n: u64) -> (r: Vec<char>)
    ensures
        r@ == decimal(n as nat),
    decreases n,
{
    if n < 10 {
        let mut out: Vec<char> = Vec::new();
        out.push(digit_char(n as u8));
        assert(out@ =~= seq![digit(n as int)]);
        out
    } else {
        let mut out: Vec<char> = decimal_chars(n / 10);
        out.push(digit_char((n % 10) as u8));
        out
    }
}

/// The decimal text of `n`.
pub fn decimal_of(n: u64) -> (r: String)
    ensures
        r@ == decimal(n as nat),
{
    let c: Vec<char> = decimal_chars(n);
    string_of(c.as_slice())
}

/// The text `s` with enough zeros in front to reach `width` characters.
pub open spec fn zero_padded(s: Seq<char>, width: nat) -> Seq<char> {
    if s.len() >= width {
        s
    } else {
        Seq::new((width - s.len()) as nat, |i: int| '0') + s
    }
}

/// The decimal text of `n` with zeros in front up to `width` characters.
pub fn decimal_padded(n: u64, width: usize) -> (r: String)
    ensures
        r@ == zero_padded(decimal(n as nat), width as nat),
{
    let digits: Vec<char> = decimal_chars(n);
    if digits.len() >= width {
        return string_of(digits.as_slice());
    }
    let missing: usize = width - digits.len();
    let mut out: Vec<char> = Vec::new();
    let mut i: usize = 0;
    while i < missing
        invariant
            i <= missing,
            out@ == Seq::new(i as nat, |j: int| '0'),
        decreases missing - i,
    {
        out.push('0');
        i += 1;
        assert(out@ =~= Seq::new(i as nat, |j: int| '0'));
    }
    let mut k: usize = 0;
    while k < digits.len()
        invariant
            k <= digits@.len(),
            out@ == Seq::new(missing as nat, |j: int| '0') + digits@.take(k as int),
        decreases digits@.len() - k,
    {
        out.push(digits[k]);
        k += 1;
        assert(out@ =~= Seq::new(missing as nat, |j: int| '0') + digits@.take(k as int));
    }
    assert(digits@.take(digits@.len() as int) =~= digits@);
    string_of(out.as_slice())
}

/// The upper-case hexadecimal digit of a value below sixteen.
pub open spec fn hex_digit(d: int) -> char {
    if d < 10 {
        (48 + d) as char
    } else {
        (55 + d) as char
    }
}

/// The upper-case hexadecimal digit of a value below sixteen.
pub fn hex_digit_char(d: u8) -> (r: char)
    requires
        d < 16,
    ensures
        r == hex_digit(d as int),
{
    if d < 10 {
        (48 + d) as char
    } else {
        (55 + d) as char
    }
}

/// The value of `c` as a digit of the given radix (at most sixteen).
pub open spec fn digit_value(c: char, radix: int) -> Option<int> {
    let v = if '0' as int <= c as int <= '9' as int {
        c as int - '0' as int
    } else if 'a' as int <= c as int <= 'f' as int {
        c as int - 'a' as int + 10
    } else if 'A' as int <= c as int <= 'F' as int {
        c as int - 'A' as int + 10
    } else {
        16
    };
    if v < radix {
        Some(v)
    } else {
        None
    }
}

/// The value of `c` as a digit of the given radix.
pub fn digit_value_of(c: char, radix: u64) -> (r: Option<u64>)
    requires
        radix <= 16,
    ensures
        match r {
            Some(v) => digit_value(c, radix as int) == Some(v as int) && v < radix,
            None => digit_value(c, radix as int) is None,
        },
{
    let n: u32 = c as u32;
    let v: u32 = if 48 <= n && n <= 57 {
        n - 48
    } else if 97 <= n && n <= 102 {
        n - 97 + 10
    } else if 65 <= n && n <= 70 {
        n - 65 + 10
    } else {
        16
    };
    if (v as u64) < radix {
        Some(v as u64)
    } else {
        None
    }
}

/// Why a text is not an unsigned number of the wanted size.
#[derive(Debug, Clone, Copy, PartialEq, Eq, Structural)]
pub enum NumberError {
    /// There is no character at all.
    Empty,
    /// A character is no digit, or there is no digit.
    InvalidDigit,
    /// The value is above the greatest one allowed.
    TooLarge,
}

/// The value of a run of digits, read from the left.
pub open spec fn digits_value(s: Seq<char>, radix: int, max: int) -> Result<int, NumberError>
    decreases s.len(),
{
    if s.len() == 0 {
        Ok(0int)
    } else {
        match digits_value(s.drop_last(), radix, max) {
            Err(e) => Err(e),
            Ok(v) => match digit_value(s.last(), radix) {
                None => Err(NumberError::InvalidDigit),
                Some(d) => if v * radix + d > max {
                    Err(NumberError::TooLarge)
                } else {
                    Ok(v * radix + d)
                },
            },
        }
    }
}

/// The digits of a number text: one `+` in front of them is allowed.
pub open spec fn number_digits(s: Seq<char>) -> Seq<char> {
    if s.len() > 0 && s[0] == '+' {
        s.skip(1)
    } else {
        s
    }
}

/// The unsigned number that a text holds.
pub open spec fn number_in(s: Seq<char>, radix: int, max: int) -> Result<int, NumberError> {
    if s.len() == 0 {
        Err(NumberError::Empty)
    } else if number_digits(s).len() == 0 {
        Err(NumberError::InvalidDigit)
    } else {
        digits_value(number_digits(s), radix, max)
    }
}

/// An error at a prefix of the digits is the error of all of them.
proof fn lemma_digits_error(s: Seq<char>, n: int, radix: int, max: int)
    requires
        0 <= n <= s.len(),
        digits_value(s.take(n), radix, max) is Err,
    ensures
        digits_value(s, radix, max) == digits_value(s.take(n), radix, max),
    decreases s.len() - n,
{
    if n < s.len() {
        assert(s.take(n + 1).drop_last() =~= s.take(n));
        lemma_digits_error(s, n + 1, radix, max);
    } else {
        assert(s.take(n) =~= s);
    }
}

/// Reads an unsigned number of radix ten or sixteen that is at most `max`.
pub fn parse_number(s: &[char], radix: u64, max: u64) -> (r: Result<u64, NumberError>)
    requires
        1 <= radix <= 16,
    ensures
        match r {
            Ok(v) => number_in(s@, radix as int, max as int) == Ok::<int, NumberError>(v as int)
                && v <= max,
            Err(e) => number_in(s@, radix as int, max as int) == Err::<int, NumberError>(e),
        },
{
    if s.len() == 0 {
        return Err(NumberError::Empty);
    }
    let start: usize = if s[0] == '+' {
        1
    } else {
        0
    };
    assert(s@.subrange(start as int, s@.len() as int) =~= number_digits(s@));
    let d: &[char] = &s[start..s.len()];
    if d.len() == 0 {
        return Err(NumberError::InvalidDigit);
    }
    let mut value: u64 = 0;
    let mut i: usize = 0;
    while i < d.len()
        invariant
            i <= d@.len(),
            1 <= radix <= 16,
            value <= max,
            digits_value(d@.take(i as int), radix as int, max as int) == Ok::<int, NumberError>(
                value as int,
            ),
            s@.len() > 0,
            d@ == number_digits(s@),
            d@.len() > 0,
        decreases d@.len() - i,
    {
        assert(d@.take(i + 1).drop_last() =~= d@.take(i as int));
        assert(d@.take(i + 1).last() == d@[i as int]);
        match digit_value_of(d[i], radix) {
            None => {
                proof {
                    lemma_digits_error(d@, i + 1, radix as int, max as int);
                }
                return Err(NumberError::InvalidDigit);
            },
            Some(x) => {
                assert(value * radix <= u64::MAX * 16) by (nonlinear_arith)
                    requires
                        value <= u64::MAX,
                        radix <= 16,
                ;
                let next: u128 = (value as u128) * (radix as u128) + (x as u128);
                if next > max as u128 {
                    proof {
                        lemma_digits_error(d@, i + 1, radix as int, max as int);
                    }
                    return Err(NumberError::TooLarge);
                }
                value = next as u64;
            },
        }
        i += 1;
    }
    assert(d@.take(d@.len() as int) =~= d@);
    Ok(value)
}

/// The `u16` that a decimal text holds.
pub open spec fn u16_in(s: Seq<char>) -> Option<u16> {
    match number_in(s, 10, 0xffff) {
        Ok(v) => Some(v as u16),
        Err(_) => None,
    }
}

/// Reads a decimal `u16`.
pub fn parse_u16(s: &[char]) -> (r: Option<u16>)
    ensures
        r == u16_in(s@),
{
    match parse_number(s, 10, 0xffff) {
        Ok(v) => Some(v as u16),
        Err(_) => None,
    }
}

/// The `u32` that a decimal text holds.
pub open spec fn u32_in(s: Seq<char>) -> Option<u32> {
    match number_in(s, 10, 0xffff_ffff) {
        Ok(v) => Some(v as u32),
        Err(_) => None,
    }
}

/// Reads a decimal `u32`.
pub fn parse_u32(s: &[char]) -> (r: Option<u32>)
    ensures
        r == u32_in(s@),
{
    match parse_number(s, 10, 0xffff_ffff) {
        Ok(v) => Some(v as u32),
        Err(_) => None,
    }
}

/// The `usize` that a text of the given radix holds.
pub open spec fn usize_in(s: Seq<char>, radix: int) -> Option<usize> {
    match number_in(s, radix, usize::MAX as int) {
        Ok(v) => Some(v as usize),
        Err(_) => None,
    }
}

/// Reads a `usize` of the given radix.
pub fn parse_usize(s: &[char], radix: u64) -> (r: Option<usize>)
    requires
        1 <= radix <= 16,
    ensures
        r == usize_in(s@, radix as int),
{
    match parse_number(s, radix, usize::MAX as u64) {
        Ok(v) => Some(v as usize),
        Err(_) => None,
    }
}

/// The digits of every number below ten stand for it.
proof fn lemma_digit_value(d: int)
    requires
        0 <= d < 10,
    ensures
        digit_value(digit(d), 10) == Some(d),
        digit(d) != '+',
{
}

/// Every decimal text starts with a digit, and holds the number it was made of.
proof fn lemma_decimal_digits(n: nat, max: int)
    requires
        n <= max,
    ensures
        decimal(n).len() > 0,
        decimal(n)[0] != '+',
        digits_value(decimal(n), 10, max) == Ok::<int, NumberError>(n as int),
    decreases n,
{
    if n < 10 {
        lemma_digit_value(n as int);
        assert(decimal(n).drop_last() =~= Seq::<char>::empty());
        assert(digits_value(Seq::<char>::empty(), 10, max) == Ok::<int, NumberError>(0));
    } else {
        lemma_decimal_digits(n / 10, max);
        lemma_digit_value((n % 10) as int);
        assert(decimal(n).drop_last() =~= decimal(n / 10));
        assert(decimal(n).last() == digit((n % 10) as int));
    }
}

/// Reading back a decimal text gives the number it was written from.
pub proof fn decimal_reads_back(n: nat, max: int)
    requires
        n <= max,
    ensures
        number_in(decimal(n), 10, max) == Ok::<int, NumberError>(n as int),
{
    lemma_decimal_digits(n, max);
}

/// The powers of ten.
pub open spec fn ten_to(k: nat) -> nat
    decreases k,
{
    if k == 0 {
        1
    } else {
        10 * ten_to((k - 1) as nat)
    }
}

/// A number is written in decimal digits.
pub proof fn decimal_is_digits(n: nat)
    ensures
        decimal(n).len() > 0,
        forall|i: int| 0 <= i < decimal(n).len() ==> '0' <= #[trigger] decimal(n)[i] <= '9',
    decreases n,
{
    if n >= 10 {
        decimal_is_digits(n / 10);
    }
}

/// A number below the `k`-th power of ten has at most `k` digits.
pub proof fn decimal_is_short(n: nat, k: nat)
    requires
        n < ten_to(k),
        k > 0,
    ensures
        0 < decimal(n).len() <= k,
    decreases k,
{
    if n >= 10 {
        if k == 1 {
            assert(ten_to(1) == 10 * ten_to(0));
        } else {
            decimal_is_short(n / 10, (k - 1) as nat);
        }
    }
}

} // verus!
