//! Decimal integers as text: the `i32` parser of the standard library
//! (`str::parse::<i32>`) and the `Display` form of integers.
use vstd::prelude::*;
use crate::text::{chars_of, push_char};

verus! {

/// Why a text is not an `i32` (the kinds of `std::num::ParseIntError`).
#[derive(Debug, Clone, Copy, PartialEq, Eq, Structural)]
pub enum IntErrorKind {
    Empty,
    InvalidDigit,
    PosOverflow,
    NegOverflow,
}

pub open spec fn is_digit(c: char) -> bool {
    '0' <= c && c <= '9'
}

pub open spec fn digit_value(c: char) -> int {
    c as int - '0' as int
}

pub open spec fn digit_char(d: int) -> char {
    ('0' as int + d) as char
}

/// Reads the digits of `ds` from left to right into a non-negative
/// accumulator; the first bad digit or the first overflow decides the error.
pub open spec fn scan_positive(ds: Seq<char>) -> Result<int, IntErrorKind>
    decreases ds.len(),
{
    if ds.len() == 0 {
        Ok(0)
    } else {
        match scan_positive(ds.drop_last()) {
            Err(e) => Err(e),
            Ok(v) => if !is_digit(ds.last()) {
                Err(IntErrorKind::InvalidDigit)
            } else if v * 10 + digit_value(ds.last()) > i32::MAX {
                Err(IntErrorKind::PosOverflow)
            } else {
                Ok(v * 10 + digit_value(ds.last()))
            },
        }
    }
}

/// Like `scan_positive`, for the digits after a minus sign.
pub open spec fn scan_negative(ds: Seq<char>) -> Result<int, IntErrorKind>
    decreases ds.len(),
{
    if ds.len() == 0 {
        Ok(0)
    } else {
        match scan_negative(ds.drop_last()) {
            Err(e) => Err(e),
            Ok(v) => if !is_digit(ds.last()) {
                Err(IntErrorKind::InvalidDigit)
            } else if v * 10 - digit_value(ds.last()) < i32::MIN {
                Err(IntErrorKind::NegOverflow)
            } else {
                Ok(v * 10 - digit_value(ds.last()))
            },
        }
    }
}

/// What `s.parse::<i32>()` gives: an optional sign, then decimal digits.
pub open spec fn spec_parse_i32(s: Seq<char>) -> Result<int, IntErrorKind> {
    if s.len() == 0 {
        Err(IntErrorKind::Empty)
    } else if (s[0] == '+' || s[0] == '-') && s.len() == 1 {
        Err(IntErrorKind::InvalidDigit)
    } else if s[0] == '+' {
        scan_positive(s.drop_first())
    } else if s[0] == '-' {
        scan_negative(s.drop_first())
    } else {
        scan_positive(s)
    }
}

/// `s.parse::<i32>().unwrap_or(0)`.
pub open spec fn parse_i32_or_zero(s: Seq<char>) -> int {
    match spec_parse_i32(s) {
        Ok(v) => v,
        Err(_) => 0,
    }
}

/// The decimal digits of a natural number, most significant first.
pub open spec fn decimal(n: nat) -> Seq<char>
    decreases n,
{
    if n < 10 {
        seq![digit_char(n as int)]
    } else {
        decimal(n / 10).push(digit_char((n % 10) as int))
    }
}

/// The `Display` form of an integer: a minus sign for negatives, then digits.
pub open spec fn int_text(n: int) -> Seq<char> {
    if n < 0 {
        seq!['-'] + decimal((-n) as nat)
    } else {
        decimal(n as nat)
    }
}

/// Parses a decimal `i32` exactly as `str::parse::<i32>` does.
pub fn parse_i32(s: &str) -> (r: Result<i32, IntErrorKind>)
    ensures
        match r {
            Ok(v) => spec_parse_i32(s@) == Ok::<int, IntErrorKind>(v as int),
            Err(e) => spec_parse_i32(s@) == Err::<int, IntErrorKind>(e),
        },
{
    let cs = chars_of(s);
    let n = cs.len();
    if n == 0 {
        return Err(IntErrorKind::Empty);
    }
    let first = cs[0];
    if (first == '+' || first == '-') && n == 1 {
        return Err(IntErrorKind::InvalidDigit);
    }
    let negative = first == '-';
    let start: usize = if first == '+' || first == '-' { 1 } else { 0 };
    let ghost ds = cs@.subrange(start as int, n as int);
    proof {
        if start == 1 {
            assert(ds == s@.drop_first());
        } else {
            assert(ds == s@);
        }
    }
    let ghost whole = if negative { scan_negative(ds) } else { scan_positive(ds) };
    assert(spec_parse_i32(s@) == whole);
    let mut acc: i64 = 0;
    let mut i: usize = start;
    while i < n
        invariant
            start <= i <= n,
            n == cs@.len(),
            ds == cs@.subrange(start as int, n as int),
            !negative ==> scan_positive(ds.take(i - start)) == Ok::<int, IntErrorKind>(acc as int),
            negative ==> scan_negative(ds.take(i - start)) == Ok::<int, IntErrorKind>(acc as int),
            spec_parse_i32(s@) == whole,
            whole == if negative { scan_negative(ds) } else { scan_positive(ds) },
            negative ==> i32::MIN <= acc <= 0,
            !negative ==> 0 <= acc <= i32::MAX,
        decreases n - i,
    {
        let c = cs[i];
        proof {
            assert(ds.take(i - start + 1).drop_last() == ds.take(i - start));
            assert(ds.take(i - start + 1).last() == c);
        }
        if !('0' <= c && c <= '9') {
            proof {
                lemma_prefix_error_sticks(ds, (i - start + 1) as int, negative, IntErrorKind::InvalidDigit);
            }
            return Err(IntErrorKind::InvalidDigit);
        }
        let d: i64 = (c as u32 - '0' as u32) as i64;
        assert(d == digit_value(c));
        if negative {
            let next = acc * 10 - d;
            if next < i32::MIN as i64 {
                proof {
                    lemma_prefix_error_sticks(ds, (i - start + 1) as int, negative, IntErrorKind::NegOverflow);
                }
                return Err(IntErrorKind::NegOverflow);
            }
            acc = next;
        } else {
            let next = acc * 10 + d;
            if next > i32::MAX as i64 {
                proof {
                    lemma_prefix_error_sticks(ds, (i - start + 1) as int, negative, IntErrorKind::PosOverflow);
                }
                return Err(IntErrorKind::PosOverflow);
            }
            acc = next;
        }
        i = i + 1;
    }
    proof {
        assert(ds.take(n - start) == ds);
    }
    Ok(acc as i32)
}

/// Once a prefix of the digits fails, the whole text fails the same way.
proof fn lemma_prefix_error_sticks(ds: Seq<char>, k: int, negative: bool, e: IntErrorKind)
    requires
        0 < k <= ds.len(),
        !negative ==> scan_positive(ds.take(k)) == Err::<int, IntErrorKind>(e),
        negative ==> scan_negative(ds.take(k)) == Err::<int, IntErrorKind>(e),
    ensures
        !negative ==> scan_positive(ds) == Err::<int, IntErrorKind>(e),
        negative ==> scan_negative(ds) == Err::<int, IntErrorKind>(e),
    decreases ds.len() - k,
{
    if k == ds.len() {
        assert(ds.take(k) == ds);
    } else {
        assert(ds.take(k + 1).drop_last() == ds.take(k));
        lemma_prefix_error_sticks(ds, k + 1, negative, e);
    }
}


/// Appends the decimal digits of `m` to `s`.
fn push_decimal(s: &mut String, m: u64)
    ensures
        final(s)@ == old(s)@ + decimal(m as nat),
    decreases m,
{
    if m >= 10 {
        push_decimal(s, m / 10);
    }
    let d: u8 = (m % 10) as u8;
    let c: char = (48u8 + d) as char;
    assert(c == digit_char((m % 10) as int));
    push_char(s, c);
    proof {
        if m < 10 {
            assert(old(s)@ + decimal(m as nat) == old(s)@.push(c));
        } else {
            assert((old(s)@ + decimal((m / 10) as nat)).push(c) == old(s)@ + decimal(m as nat));
        }
    }
}

/// The `Display` form of an `i32` (`n.to_string()`).
pub fn format_i32(n: i32) -> (s: String)
    ensures
        s@ == int_text(n as int),
{
    let mut s = String::new();
    if n < 0 {
        push_char(&mut s, '-');
        let magnitude: u64 = (0i64 - n as i64) as u64;
        push_decimal(&mut s, magnitude);
    } else {
        push_decimal(&mut s, n as u64);
    }
    s
}

/// The `Display` form of a `u64` (`n.to_string()`).
pub fn format_u64(n: u64) -> (s: String)
    ensures
        s@ == decimal(n as nat),
{
    let mut s = String::new();
    push_decimal(&mut s, n);
    proof {
        assert(s@ == Seq::<char>::empty() + decimal(n as nat));
    }
    s
}

/// The decimal form of a number is a non-empty run of digits.
pub proof fn lemma_decimal_digits(m: nat)
    ensures
        decimal(m).len() >= 1,
        forall|i: int| 0 <= i < decimal(m).len() ==> is_digit(#[trigger] decimal(m)[i]),
    decreases m,
{
    if m >= 10 {
        lemma_decimal_digits(m / 10);
    }
}

pub proof fn lemma_digit_char(d: int)
    requires
        0 <= d < 10,
    ensures
        is_digit(digit_char(d)),
        digit_value(digit_char(d)) == d,
{
    assert(digit_char(d) as int == 48 + d);
}

proof fn lemma_scan_positive_decimal(m: nat)
    requires
        m <= i32::MAX,
    ensures
        scan_positive(decimal(m)) == Ok::<int, IntErrorKind>(m as int),
    decreases m,
{
    if m < 10 {
        lemma_digit_char(m as int);
        assert(decimal(m).drop_last() == Seq::<char>::empty());
        assert(decimal(m).last() == digit_char(m as int));
        assert(scan_positive(Seq::<char>::empty()) == Ok::<int, IntErrorKind>(0));
        assert(decimal(m).len() == 1);
    } else {
        lemma_digit_char((m % 10) as int);
        lemma_decimal_digits(m);
        lemma_scan_positive_decimal(m / 10);
        assert(decimal(m).drop_last() == decimal(m / 10));
        assert(decimal(m).last() == digit_char((m % 10) as int));
        assert((m / 10) * 10 + m % 10 == m);
    }
}

proof fn lemma_scan_negative_decimal(m: nat)
    requires
        m <= 0x8000_0000,
    ensures
        scan_negative(decimal(m)) == Ok::<int, IntErrorKind>(-(m as int)),
    decreases m,
{
    if m < 10 {
        lemma_digit_char(m as int);
        assert(decimal(m).drop_last() == Seq::<char>::empty());
        assert(decimal(m).last() == digit_char(m as int));
        assert(scan_negative(Seq::<char>::empty()) == Ok::<int, IntErrorKind>(0));
        assert(decimal(m).len() == 1);
    } else {
        lemma_digit_char((m % 10) as int);
        lemma_decimal_digits(m);
        lemma_scan_negative_decimal(m / 10);
        assert(decimal(m).drop_last() == decimal(m / 10));
        assert(decimal(m).last() == digit_char((m % 10) as int));
        assert((m / 10) * 10 + m % 10 == m);
    }
}

/// Reading back the text of an `i32` gives the same number:
/// `n.to_string().parse::<i32>() == Ok(n)`.
pub proof fn lemma_i32_text_roundtrip(n: int)
    requires
        i32::MIN <= n <= i32::MAX,
    ensures
        spec_parse_i32(int_text(n)) == Ok::<int, IntErrorKind>(n),
{
    if n < 0 {
        let k = (-n) as nat;
        lemma_decimal_digits(k);
        lemma_scan_negative_decimal(k);
        assert((seq!['-'] + decimal(k)).drop_first() == decimal(k));
    } else {
        lemma_decimal_digits(n as nat);
        lemma_scan_positive_decimal(n as nat);
        assert(is_digit(decimal(n as nat)[0]));
    }
}

/// The text of an integer holds only digits and the minus sign.
pub proof fn lemma_int_text_chars(n: int)
    ensures
        forall|i: int| 0 <= i < int_text(n).len() ==> (is_digit(#[trigger] int_text(n)[i]) || int_text(n)[i] == '-'),
{
    if n < 0 {
        lemma_decimal_digits((-n) as nat);
        assert forall|i: int| 0 <= i < int_text(n).len() implies (is_digit(#[trigger] int_text(n)[i]) || int_text(n)[i] == '-') by {
            if i > 0 {
                assert(int_text(n)[i] == decimal((-n) as nat)[i - 1]);
            }
        }
    } else {
        lemma_decimal_digits(n as nat);
    }
}

} // verus!
