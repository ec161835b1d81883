//! Integers as text: decimal notation, and reading it back.

use vstd::prelude::*;
use vstd::string::*;
use crate::text::chars_of;

verus! {

/// The digit of value `d`, for `d` below ten.
pub open spec fn digit_char(d: int) -> char {
    ('0' as int + d) as char
}

/// `n` in decimal notation, without leading zeros.
pub open spec fn decimal(n: int) -> Seq<char>
    decreases n,
{
    if n < 10 {
        seq![digit_char(n)]
    } else {
        decimal(n / 10).push(digit_char(n % 10))
    }
}

/// `n` in decimal notation, with a minus sign where it is negative.
pub open spec fn integer_text(n: int) -> Seq<char> {
    if n < 0 {
        seq!['-'] + decimal(-n)
    } else {
        decimal(n)
    }
}

/// Whether `c` is one of the ten digits.
pub open spec fn is_digit(c: char) -> bool {
    '0' <= c <= '9'
}

/// The value of the digit `c`.
pub open spec fn digit_value(c: char) -> int {
    c as int - '0' as int
}

/// Why a text is not an integer of the wanted type.
#[derive(Debug, Clone, Copy, PartialEq, Eq, Structural)]
pub enum IntError {
    /// There is no text at all.
    Empty,
    /// A character is not a digit, or there is none after the sign.
    InvalidDigit,
    /// The number is above the type's range.
    TooLarge,
    /// The number is below the type's range.
    TooSmall,
}

impl IntError {
    /// The message for the error.
    pub open spec fn text(self) -> Seq<char> {
        match self {
            IntError::Empty => "cannot parse integer from empty string"@,
            IntError::InvalidDigit => "invalid digit found in string"@,
            IntError::TooLarge => "number too large to fit in target type"@,
            IntError::TooSmall => "number too small to fit in target type"@,
        }
    }

    /// The message for the error.
    pub fn message(&self) -> (res: String)
        ensures
            res@ == self.text(),
    {
        match self {
            IntError::Empty => "cannot parse integer from empty string".to_string(),
            IntError::InvalidDigit => "invalid digit found in string".to_string(),
            IntError::TooLarge => "number too large to fit in target type".to_string(),
            IntError::TooSmall => "number too small to fit in target type".to_string(),
        }
    }
}

/// The number that the digits `d` write, read from the left; `too_big` is the
/// error for a prefix whose value is above `limit`.
pub open spec fn digits_read(d: Seq<char>, limit: int, too_big: IntError) -> Result<int, IntError>
    decreases d.len(),
{
    if d.len() == 0 {
        Ok(0)
    } else {
        match digits_read(d.drop_last(), limit, too_big) {
            Err(e) => Err(e),
            Ok(n) => if !is_digit(d.last()) {
                Err(IntError::InvalidDigit)
            } else if n * 10 + digit_value(d.last()) > limit {
                Err(too_big)
            } else {
                Ok(n * 10 + digit_value(d.last()))
            },
        }
    }
}

/// The signed 64-bit integer that `s` writes: digits, after a sign or none.
pub open spec fn i64_read(s: Seq<char>) -> Result<int, IntError> {
    if s.len() == 0 {
        Err(IntError::Empty)
    } else if s.len() == 1 && (s[0] == '+' || s[0] == '-') {
        Err(IntError::InvalidDigit)
    } else if s[0] == '-' {
        match digits_read(s.drop_first(), 0x8000_0000_0000_0000, IntError::TooSmall) {
            Ok(n) => Ok(-n),
            Err(e) => Err(e),
        }
    } else if s[0] == '+' {
        digits_read(s.drop_first(), i64::MAX as int, IntError::TooLarge)
    } else {
        digits_read(s, i64::MAX as int, IntError::TooLarge)
    }
}

/// The unsigned 64-bit integer that `s` writes: digits, after a plus sign or none.
pub open spec fn u64_read(s: Seq<char>) -> Result<int, IntError> {
    if s.len() == 0 {
        Err(IntError::Empty)
    } else if s.len() == 1 && (s[0] == '+' || s[0] == '-') {
        Err(IntError::InvalidDigit)
    } else if s[0] == '+' {
        digits_read(s.drop_first(), u64::MAX as int, IntError::TooLarge)
    } else {
        digits_read(s, u64::MAX as int, IntError::TooLarge)
    }
}

fn push_decimal(out: &mut String, n: u128)
    ensures
        final(out)@ == old(out)@ + decimal(n as int),
    decreases n,
{
    if n >= 10 {
        push_decimal(out, n / 10);
    }
    out.push((48u8 + (n % 10) as u8) as char);
    assert(out@ =~= old(out)@ + decimal(n as int));
}

/// `n` in decimal notation.
pub fn unsigned_to_text(n: u128) -> (res: String)
    ensures
        res@ == integer_text(n as int),
{
    let mut s: String = String::new();
    push_decimal(&mut s, n);
    assert(s@ =~= decimal(n as int));
    s
}

/// `n` in decimal notation.
pub fn signed_to_text(n: i64) -> (res: String)
    ensures
        res@ == integer_text(n as int),
{
    let mut s: String = String::new();
    if n < 0 {
        s.push('-');
        push_decimal(&mut s, (-(n as i128)) as u128);
        assert(s@ =~= seq!['-'] + decimal(-(n as int)));
    } else {
        push_decimal(&mut s, n as u128);
        assert(s@ =~= decimal(n as int));
    }
    s
}

fn read_digits(v: &Vec<char>, from: usize, limit: u64, too_big: IntError) -> (res: Result<
    u64,
    IntError,
>)
    requires
        from <= v@.len(),
    ensures
        match res {
            Ok(n) => n <= limit && digits_read(v@.skip(from as int), limit as int, too_big) == Ok::<
                int,
                IntError,
            >(n as int),
            Err(e) => digits_read(v@.skip(from as int), limit as int, too_big) == Err::<
                int,
                IntError,
            >(e),
        },
{
    let ghost d = v@.skip(from as int);
    let mut n: u64 = 0;
    let mut i: usize = from;
    let mut failed: Option<IntError> = None;
    while i < v.len()
        invariant
            from <= i <= v@.len(),
            d == v@.skip(from as int),
            n <= limit,
            match failed {
                None => digits_read(d.take(i - from), limit as int, too_big) == Ok::<int, IntError>(
                    n as int,
                ),
                Some(e) => digits_read(d.take(i - from), limit as int, too_big) == Err::<
                    int,
                    IntError,
                >(e),
            },
        decreases v@.len() - i,
    {
        let c: char = v[i];
        assert(d.take(i + 1 - from).drop_last() =~= d.take(i - from));
        assert(d.take(i + 1 - from).last() == c);
        if failed.is_none() {
            if c < '0' || c > '9' {
                failed = Some(IntError::InvalidDigit);
            } else {
                let next: u128 = (n as u128) * 10 + (c as u8 - 48u8) as u128;
                if next > limit as u128 {
                    failed = Some(too_big);
                } else {
                    n = next as u64;
                }
            }
        }
        i = i + 1;
    }
    assert(d.take(i - from) =~= d);
    match failed {
        Some(e) => Err(e),
        None => Ok(n),
    }
}

/// Reads a signed 64-bit integer.
pub fn parse_i64(s: &str) -> (res: Result<i64, IntError>)
    ensures
        match res {
            Ok(n) => i64_read(s@) == Ok::<int, IntError>(n as int),
            Err(e) => i64_read(s@) == Err::<int, IntError>(e),
        },
{
    let v: Vec<char> = chars_of(s);
    if v.len() == 0 {
        return Err(IntError::Empty);
    }
    let first: char = v[0];
    if v.len() == 1 && (first == '+' || first == '-') {
        return Err(IntError::InvalidDigit);
    }
    assert(v@.skip(1) =~= s@.drop_first());
    assert(v@.skip(0) =~= s@);
    if first == '-' {
        match read_digits(&v, 1, 0x8000_0000_0000_0000, IntError::TooSmall) {
            Ok(n) => Ok((-(n as i128)) as i64),
            Err(e) => Err(e),
        }
    } else {
        let from: usize = if first == '+' { 1 } else { 0 };
        match read_digits(&v, from, 0x7fff_ffff_ffff_ffff, IntError::TooLarge) {
            Ok(n) => Ok(n as i64),
            Err(e) => Err(e),
        }
    }
}

/// Reads an unsigned 64-bit integer.
pub fn parse_u64(s: &str) -> (res: Result<u64, IntError>)
    ensures
        match res {
            Ok(n) => u64_read(s@) == Ok::<int, IntError>(n as int),
            Err(e) => u64_read(s@) == Err::<int, IntError>(e),
        },
{
    let v: Vec<char> = chars_of(s);
    if v.len() == 0 {
        return Err(IntError::Empty);
    }
    let first: char = v[0];
    if v.len() == 1 && (first == '+' || first == '-') {
        return Err(IntError::InvalidDigit);
    }
    assert(v@.skip(1) =~= s@.drop_first());
    assert(v@.skip(0) =~= s@);
    let from: usize = if first == '+' { 1 } else { 0 };
    read_digits(&v, from, u64::MAX, IntError::TooLarge)
}

proof fn lemma_decimal_digits(n: int)
    requires
        n >= 0,
    ensures
        decimal(n).len() > 0,
        forall|i: int| 0 <= i < decimal(n).len() ==> is_digit(#[trigger] decimal(n)[i]),
    decreases n,
{
    if n >= 10 {
        lemma_decimal_digits(n / 10);
    }
}

proof fn lemma_decimal_read(n: int, limit: int, too_big: IntError)
    requires
        0 <= n <= limit,
    ensures
        digits_read(decimal(n), limit, too_big) == Ok::<int, IntError>(n),
    decreases n,
{
    reveal_with_fuel(digits_read, 2);
    if n >= 10 {
        lemma_decimal_read(n / 10, limit, too_big);
        assert(decimal(n).drop_last() =~= decimal(n / 10));
        assert(decimal(n).last() == digit_char(n % 10));
    } else {
        assert(decimal(n).drop_last() =~= Seq::<char>::empty());
    }
}

/// Reading back the notation of a signed 64-bit integer gives that integer.
pub proof fn law_i64_round_trip(n: i64)
    ensures
        i64_read(integer_text(n as int)) == Ok::<int, IntError>(n as int),
{
    let m = if n < 0 { -(n as int) } else { n as int };
    lemma_decimal_digits(m);
    let s = integer_text(n as int);
    if n < 0 {
        lemma_decimal_read(m, 0x8000_0000_0000_0000, IntError::TooSmall);
        assert(s.drop_first() =~= decimal(m));
    } else {
        lemma_decimal_read(m, i64::MAX as int, IntError::TooLarge);
        assert(is_digit(s[0]));
    }
}

/// Reading back the notation of an unsigned 64-bit integer gives that integer.
pub proof fn law_u64_round_trip(n: u64)
    ensures
        u64_read(integer_text(n as int)) == Ok::<int, IntError>(n as int),
{
    lemma_decimal_digits(n as int);
    lemma_decimal_read(n as int, u64::MAX as int, IntError::TooLarge);
    assert(is_digit(integer_text(n as int)[0]));
}

/// The notation of an integer holds digits and at most a leading minus sign.
pub proof fn lemma_integer_text_chars(n: int)
    ensures
        forall|i: int|
            0 <= i < integer_text(n).len() ==> (is_digit(#[trigger] integer_text(n)[i])
                || integer_text(n)[i] == '-'),
{
    let m = if n < 0 { -n } else { n };
    lemma_decimal_digits(m);
    if n < 0 {
        assert forall|i: int| 0 <= i < integer_text(n).len() implies (is_digit(
            #[trigger] integer_text(n)[i],
        ) || integer_text(n)[i] == '-') by {
            if i > 0 {
                assert(integer_text(n)[i] == decimal(m)[i - 1]);
            }
        }
    }
}

/// The decimal notation grows by one digit for each factor of ten: ten times a
/// number and a digit is written as the number and then the digit; a minus sign
/// stands before what is negative.
pub proof fn law_decimal_notation(n: int, d: int)
    requires
        n > 0,
        0 <= d < 10,
    ensures
        integer_text(10 * n + d) == integer_text(n).push(integer_text(d)[0]),
        integer_text(d).len() == 1,
        integer_text(d)[0] as int == '0' as int + d,
        integer_text(-n) == seq!['-'] + integer_text(n),
{
    assert((10 * n + d) / 10 == n);
    assert((10 * n + d) % 10 == d);
}

/// Reading a digit more multiplies by ten and adds the digit, as long as the limit
/// is kept; a character that is no digit, or a number that is too large, is an
/// error.
pub proof fn law_reading_a_digit_more(s: Seq<char>, c: char, n: int)
    requires
        s.len() > 0,
        '0' <= s[0] <= '9',
        u64_read(s) == Ok::<int, IntError>(n),
    ensures
        '0' <= c <= '9' && 10 * n + (c as int - '0' as int) <= 0xffff_ffff_ffff_ffff ==> u64_read(
            s.push(c),
        ) == Ok::<int, IntError>(10 * n + (c as int - '0' as int)),
        '0' <= c <= '9' && 10 * n + (c as int - '0' as int) > 0xffff_ffff_ffff_ffff ==> u64_read(
            s.push(c),
        ) == Err::<int, IntError>(IntError::TooLarge),
        !('0' <= c <= '9') ==> u64_read(s.push(c)) == Err::<int, IntError>(IntError::InvalidDigit),
        n <= 0x7fff_ffff_ffff_ffff ==> i64_read(s) == Ok::<int, IntError>(n),
{
    assert(s.push(c).drop_last() =~= s);
    assert(s.push(c)[0] == s[0]);
    if n <= 0x7fff_ffff_ffff_ffff {
        lemma_smaller_limit(s, n);
    }
}

proof fn lemma_smaller_limit(s: Seq<char>, n: int)
    requires
        digits_read(s, u64::MAX as int, IntError::TooLarge) == Ok::<int, IntError>(n),
        n <= i64::MAX,
    ensures
        digits_read(s, i64::MAX as int, IntError::TooLarge) == Ok::<int, IntError>(n),
    decreases s.len(),
{
    if s.len() > 0 {
        let m = digits_read(s.drop_last(), u64::MAX as int, IntError::TooLarge)->Ok_0;
        lemma_digits_natural(s.drop_last(), u64::MAX as int, IntError::TooLarge);
        assert(m <= i64::MAX);
        lemma_smaller_limit(s.drop_last(), m);
    }
}

proof fn lemma_digits_natural(s: Seq<char>, limit: int, e: IntError)
    ensures
        digits_read(s, limit, e) matches Ok(n) ==> n >= 0,
    decreases s.len(),
{
    if s.len() > 0 {
        lemma_digits_natural(s.drop_last(), limit, e);
    }
}

/// A plus sign changes nothing, a minus sign turns the number over; neither stands
/// alone, nothing is no number, and a number without a sign takes no minus.
pub proof fn law_signs_are_read(s: Seq<char>, n: int)
    requires
        s.len() > 0,
        '0' <= s[0] <= '9',
        i64_read(s) == Ok::<int, IntError>(n),
    ensures
        i64_read(seq!['+'] + s) == Ok::<int, IntError>(n),
        i64_read(seq!['-'] + s) == Ok::<int, IntError>(-n),
        u64_read(seq!['+'] + s) == u64_read(s),
        u64_read(seq!['-'] + s) == Err::<int, IntError>(IntError::InvalidDigit),
        i64_read(Seq::empty()) == Err::<int, IntError>(IntError::Empty),
        i64_read(seq!['-']) == Err::<int, IntError>(IntError::InvalidDigit),
        i64_read(seq!['+']) == Err::<int, IntError>(IntError::InvalidDigit),
{
    assert((seq!['+'] + s).drop_first() =~= s);
    assert((seq!['-'] + s).drop_first() =~= s);
    lemma_larger_limit(s, n);
    lemma_bad_start(seq!['-'] + s);
}

proof fn lemma_larger_limit(s: Seq<char>, n: int)
    requires
        digits_read(s, i64::MAX as int, IntError::TooLarge) == Ok::<int, IntError>(n),
    ensures
        digits_read(s, 0x8000_0000_0000_0000, IntError::TooSmall) == Ok::<int, IntError>(n),
    decreases s.len(),
{
    if s.len() > 0 {
        lemma_larger_limit(
            s.drop_last(),
            digits_read(s.drop_last(), i64::MAX as int, IntError::TooLarge)->Ok_0,
        );
    }
}

proof fn lemma_bad_start(s: Seq<char>)
    requires
        s.len() > 0,
        s[0] == '-',
    ensures
        digits_read(s, u64::MAX as int, IntError::TooLarge) == Err::<int, IntError>(
            IntError::InvalidDigit,
        ),
    decreases s.len(),
{
    if s.len() > 1 {
        lemma_bad_start(s.drop_last());
    } else {
        assert(digits_read(s.drop_last(), u64::MAX as int, IntError::TooLarge) == Ok::<
            int,
            IntError,
        >(0));
        assert(s.last() == '-');
    }
}

} // verus!
