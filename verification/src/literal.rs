//! Numbers as they are written: reading decimal integers, writing them, and
//! telling whether a text is a floating-point literal.

use crate::text::chars_of;
use vstd::prelude::*;

verus! {

pub open spec fn is_digit(c: char) -> bool {
    c == '0' || c == '1' || c == '2' || c == '3' || c == '4' || c == '5' || c == '6' || c == '7'
        || c == '8' || c == '9'
}

/// The value of a decimal digit.
pub open spec fn digit_value(c: char) -> nat {
    if c == '1' {
        1
    } else if c == '2' {
        2
    } else if c == '3' {
        3
    } else if c == '4' {
        4
    } else if c == '5' {
        5
    } else if c == '6' {
        6
    } else if c == '7' {
        7
    } else if c == '8' {
        8
    } else if c == '9' {
        9
    } else {
        0
    }
}

/// The digit for a value below ten.
pub open spec fn digit_char(d: nat) -> char {
    if d == 1 {
        '1'
    } else if d == 2 {
        '2'
    } else if d == 3 {
        '3'
    } else if d == 4 {
        '4'
    } else if d == 5 {
        '5'
    } else if d == 6 {
        '6'
    } else if d == 7 {
        '7'
    } else if d == 8 {
        '8'
    } else if d == 9 {
        '9'
    } else {
        '0'
    }
}

pub open spec fn all_digits(s: Seq<char>) -> bool {
    forall|i: int| 0 <= i < s.len() ==> is_digit(#[trigger] s[i])
}

/// The number that a run of decimal digits spells.
pub open spec fn decimal(s: Seq<char>) -> nat
    decreases s.len(),
{
    if s.len() == 0 {
        0
    } else {
        decimal(s.drop_last()) * 10 + digit_value(s.last())
    }
}

/// The decimal digits of a number, without leading zeros.
pub open spec fn digits_of(n: nat) -> Seq<char>
    decreases n,
{
    if n < 10 {
        seq![digit_char(n)]
    } else {
        digits_of(n / 10).push(digit_char(n % 10))
    }
}

/// A number is read back from its digits.
pub proof fn law_digits_read_back(n: nat)
    ensures
        all_digits(digits_of(n)),
        digits_of(n).len() >= 1,
        decimal(digits_of(n)) == n,
    decreases n,
{
    if n < 10 {
        let s = digits_of(n);
        assert(s.drop_last() =~= Seq::<char>::empty());
        assert(decimal(s.drop_last()) == 0);
    } else {
        law_digits_read_back(n / 10);
        let s = digits_of(n);
        assert(s.drop_last() =~= digits_of(n / 10));
    }
}

/// A longer run of digits spells no smaller a number than its beginning.
pub proof fn lemma_decimal_grows(s: Seq<char>, k: int)
    requires
        0 <= k <= s.len(),
    ensures
        decimal(s.take(k)) <= decimal(s),
    decreases s.len() - k,
{
    if k == s.len() {
        assert(s.take(k) =~= s);
    } else {
        lemma_decimal_grows(s.drop_last(), k);
        assert(s.drop_last().take(k) =~= s.take(k));
    }
}

pub fn digit_of(c: char) -> (r: Option<u8>)
    ensures
        match r {
            Some(d) => is_digit(c) && d == digit_value(c) && d < 10,
            None => !is_digit(c),
        },
{
    if c == '0' {
        Some(0)
    } else if c == '1' {
        Some(1)
    } else if c == '2' {
        Some(2)
    } else if c == '3' {
        Some(3)
    } else if c == '4' {
        Some(4)
    } else if c == '5' {
        Some(5)
    } else if c == '6' {
        Some(6)
    } else if c == '7' {
        Some(7)
    } else if c == '8' {
        Some(8)
    } else if c == '9' {
        Some(9)
    } else {
        None
    }
}

fn char_of_digit(d: u8) -> (c: char)
    requires
        d < 10,
    ensures
        c == digit_char(d as nat),
{
    if d == 1 {
        '1'
    } else if d == 2 {
        '2'
    } else if d == 3 {
        '3'
    } else if d == 4 {
        '4'
    } else if d == 5 {
        '5'
    } else if d == 6 {
        '6'
    } else if d == 7 {
        '7'
    } else if d == 8 {
        '8'
    } else if d == 9 {
        '9'
    } else {
        '0'
    }
}

/// What a run of characters is when read as a decimal number with a bound.
pub enum DigitScan {
    /// All digits, and the number they spell is within the bound.
    Value(u64),
    /// Some character is no digit.
    Invalid,
    /// All digits, but the number they spell is over the bound.
    TooLarge,
}

/// Reads `chars[from..]` as a decimal number of at most `max`.
pub fn scan_digits(chars: &Vec<char>, from: usize, max: u64) -> (r: DigitScan)
    requires
        from <= chars.len(),
    ensures
        match r {
            DigitScan::Value(v) => all_digits(chars@.subrange(from as int, chars.len() as int))
                && decimal(chars@.subrange(from as int, chars.len() as int)) == v && v <= max,
            DigitScan::Invalid => !all_digits(chars@.subrange(from as int, chars.len() as int)),
            DigitScan::TooLarge => all_digits(chars@.subrange(from as int, chars.len() as int))
                && decimal(chars@.subrange(from as int, chars.len() as int)) > max,
        },
{
    let ghost s = chars@.subrange(from as int, chars.len() as int);
    let mut i: usize = from;
    while i < chars.len()
        invariant
            from <= i <= chars.len(),
            s == chars@.subrange(from as int, chars.len() as int),
            forall|j: int| 0 <= j < i - from ==> is_digit(#[trigger] s[j]),
        decreases chars.len() - i,
    {
        if digit_of(chars[i]).is_none() {
            assert(!is_digit(s[i - from]));
            return DigitScan::Invalid;
        }
        i = i + 1;
    }
    assert(all_digits(s));
    let mut acc: u64 = 0;
    let mut k: usize = from;
    proof {
        assert(s.take(0) =~= Seq::<char>::empty());
    }
    while k < chars.len()
        invariant
            from <= k <= chars.len(),
            s == chars@.subrange(from as int, chars.len() as int),
            all_digits(s),
            acc == decimal(s.take(k - from)),
            acc <= max,
        decreases chars.len() - k,
    {
        let d = match digit_of(chars[k]) {
            Some(d) => d,
            None => 0,
        };
        proof {
            let next = s.take(k - from + 1);
            assert(next.drop_last() =~= s.take(k - from));
            assert(next.last() == chars@[k as int]);
            assert(is_digit(s[k - from]));
            lemma_decimal_grows(s, k - from + 1);
        }
        if d as u64 > max {
            return DigitScan::TooLarge;
        }
        if acc > (max - d as u64) / 10 {
            assert(acc * 10 + d > max) by (nonlinear_arith)
                requires
                    acc > (max - d) / 10,
                    d <= max,
                    d < 10,
            ;
            return DigitScan::TooLarge;
        }
        assert(acc * 10 + d <= max) by (nonlinear_arith)
            requires
                acc <= (max - d) / 10,
                d <= max,
        ;
        acc = acc * 10 + d as u64;
        k = k + 1;
    }
    proof {
        assert(s.take(s.len() as int) =~= s);
    }
    DigitScan::Value(acc)
}

/// Why a text is no unsigned integer.
#[derive(Debug, Clone, Copy, PartialEq, Eq, Structural)]
pub enum IntError {
    /// The text is empty.
    Empty,
    /// The text holds something other than an optional `+` and digits.
    InvalidDigit,
    /// The number does not fit.
    TooLarge,
}

impl IntError {
    /// What the error says.
    pub open spec fn text(self) -> Seq<char> {
        match self {
            IntError::Empty => "cannot parse integer from empty string"@,
            IntError::InvalidDigit => "invalid digit found in string"@,
            IntError::TooLarge => "number too large to fit in target type"@,
        }
    }

    pub fn message(self) -> (r: &'static str)
        ensures
            r@ == self.text(),
    {
        match self {
            IntError::Empty => "cannot parse integer from empty string",
            IntError::InvalidDigit => "invalid digit found in string",
            IntError::TooLarge => "number too large to fit in target type",
        }
    }
}

/// The digits of an unsigned literal: the text without a leading `+`.
pub open spec fn unsigned_digits(s: Seq<char>) -> Seq<char> {
    if s.len() > 0 && s[0] == '+' {
        s.subrange(1, s.len() as int)
    } else {
        s
    }
}

/// The 32-bit unsigned integer that a text spells: an optional `+` and then
/// one or more decimal digits, nothing else.
pub open spec fn u32_literal(s: Seq<char>) -> Result<u32, IntError> {
    let digits = unsigned_digits(s);
    if s.len() == 0 {
        Err(IntError::Empty)
    } else if digits.len() == 0 || !all_digits(digits) {
        Err(IntError::InvalidDigit)
    } else if decimal(digits) > u32::MAX {
        Err(IntError::TooLarge)
    } else {
        Ok(decimal(digits) as u32)
    }
}

/// Reads a 32-bit unsigned integer.
pub fn parse_u32(s: &str) -> (r: Result<u32, IntError>)
    ensures
        r == u32_literal(s@),
{
    let chars = chars_of(s);
    if chars.len() == 0 {
        return Err(IntError::Empty);
    }
    let from: usize = if chars[0] == '+' {
        1
    } else {
        0
    };
    proof {
        assert(chars@.subrange(from as int, chars.len() as int) =~= unsigned_digits(s@));
    }
    if from == chars.len() {
        return Err(IntError::InvalidDigit);
    }
    match scan_digits(&chars, from, 0xffff_ffff) {
        DigitScan::Value(v) => Ok(v as u32),
        DigitScan::Invalid => Err(IntError::InvalidDigit),
        DigitScan::TooLarge => Err(IntError::TooLarge),
    }
}

/// The 64-bit signed integer that a text spells: an optional sign and then
/// one or more decimal digits, nothing else, and within range.
pub open spec fn i64_literal(s: Seq<char>) -> Option<i64> {
    if s.len() == 0 {
        None
    } else {
        let signed = s[0] == '+' || s[0] == '-';
        let digits = if signed {
            s.subrange(1, s.len() as int)
        } else {
            s
        };
        if digits.len() == 0 || !all_digits(digits) {
            None
        } else if s[0] == '-' {
            if decimal(digits) > 0x8000_0000_0000_0000 {
                None
            } else {
                Some((-(decimal(digits) as int)) as i64)
            }
        } else if decimal(digits) > i64::MAX {
            None
        } else {
            Some(decimal(digits) as i64)
        }
    }
}

/// Reads a 64-bit signed integer.
pub fn parse_i64(s: &str) -> (r: Option<i64>)
    ensures
        r == i64_literal(s@),
{
    let chars = chars_of(s);
    if chars.len() == 0 {
        return None;
    }
    let negative = chars[0] == '-';
    let from: usize = if chars[0] == '+' || negative {
        1
    } else {
        0
    };
    proof {
        if from == 0 {
            assert(chars@.subrange(from as int, chars.len() as int) =~= s@);
        }
    }
    if from == chars.len() {
        return None;
    }
    if negative {
        match scan_digits(&chars, from, 0x8000_0000_0000_0000) {
            DigitScan::Value(v) => {
                if v == 0x8000_0000_0000_0000 {
                    Some(i64::MIN)
                } else {
                    Some(-(v as i64))
                }
            },
            _ => None,
        }
    } else {
        match scan_digits(&chars, from, 0x7fff_ffff_ffff_ffff) {
            DigitScan::Value(v) => Some(v as i64),
            _ => None,
        }
    }
}

/// Appends the decimal digits of `n` to `out`.
fn render_into(n: u64, out: &mut String)
    ensures
        final(out)@ == old(out)@ + digits_of(n as nat),
    decreases n,
{
    if n >= 10 {
        render_into(n / 10, out);
    }
    out.push(char_of_digit((n % 10) as u8));
    proof {
        if n < 10 {
            assert(final(out)@ =~= old(out)@ + digits_of(n as nat));
        } else {
            assert(digits_of(n as nat) =~= digits_of((n / 10) as nat).push(
                digit_char((n % 10) as nat),
            ));
            assert(final(out)@ =~= old(out)@ + digits_of(n as nat));
        }
    }
}

/// The decimal text of an unsigned integer.
pub fn render_u64(n: u64) -> (r: String)
    ensures
        r@ == digits_of(n as nat),
{
    let mut r = String::new();
    render_into(n, &mut r);
    assert(r@ =~= digits_of(n as nat));
    r
}

/// The decimal text of a 32-bit unsigned integer.
pub fn render_u32(n: u32) -> (r: String)
    ensures
        r@ == digits_of(n as nat),
{
    render_u64(n as u64)
}

/// The decimal text of a signed integer: a `-` before the digits of a
/// negative number.
pub open spec fn signed_digits(v: int) -> Seq<char> {
    if v < 0 {
        seq!['-'] + digits_of((-v) as nat)
    } else {
        digits_of(v as nat)
    }
}

/// The decimal text of a 64-bit signed integer.
pub fn render_i64(v: i64) -> (r: String)
    ensures
        r@ == signed_digits(v as int),
{
    let mut r = String::new();
    if v < 0 {
        r.push('-');
        let magnitude: u64 = if v == i64::MIN {
            0x8000_0000_0000_0000
        } else {
            (-v) as u64
        };
        render_into(magnitude, &mut r);
        assert(r@ =~= signed_digits(v as int));
    } else {
        render_into(v as u64, &mut r);
        assert(r@ =~= signed_digits(v as int));
    }
    r
}

/// An unsigned number is read back from its decimal text.
pub proof fn law_u32_text_round_trip(n: u32)
    ensures
        u32_literal(digits_of(n as nat)) == Ok::<u32, IntError>(n),
{
    let s = digits_of(n as nat);
    law_digits_read_back(n as nat);
    assert(is_digit(s[0]));
    assert(unsigned_digits(s) == s);
}

/// A signed number is read back from its decimal text.
pub proof fn law_i64_text_round_trip(v: i64)
    ensures
        i64_literal(signed_digits(v as int)) == Some(v),
{
    let s = signed_digits(v as int);
    if v < 0 {
        let digits = digits_of((-v) as nat);
        law_digits_read_back((-v) as nat);
        assert(s[0] == '-');
        assert(s.subrange(1, s.len() as int) =~= digits);
    } else {
        law_digits_read_back(v as nat);
        assert(is_digit(s[0]));
    }
}

/// The number of digits in a row in `s` from position `i` on.
pub open spec fn digit_run(s: Seq<char>, i: int) -> int
    decreases s.len() - i,
{
    if 0 <= i < s.len() && is_digit(s[i]) {
        1 + digit_run(s, i + 1)
    } else {
        0
    }
}

pub open spec fn is_sign(c: char) -> bool {
    c == '+' || c == '-'
}

/// Whether `s` from `i` to its end is an exponent: `e` or `E`, an optional
/// sign, and one or more digits.
pub open spec fn is_exponent(s: Seq<char>, i: int) -> bool {
    let digits = if i + 1 < s.len() && is_sign(s[i + 1]) {
        i + 2
    } else {
        i + 1
    };
    0 <= i < s.len() && (s[i] == 'e' || s[i] == 'E') && digit_run(s, digits) >= 1 && digits
        + digit_run(s, digits) == s.len()
}

/// Whether `s` from `from` to its end is a decimal number: digits with an
/// optional point among them, at least one digit in all, and an optional
/// exponent.
pub open spec fn is_decimal_number(s: Seq<char>, from: int) -> bool {
    let whole = digit_run(s, from);
    let dot = from + whole;
    let pointed = dot < s.len() && s[dot] == '.';
    let fraction = if pointed {
        digit_run(s, dot + 1)
    } else {
        0
    };
    let end = if pointed {
        dot + 1 + fraction
    } else {
        dot
    };
    whole + fraction >= 1 && (end == s.len() || is_exponent(s, end))
}

/// Whether `c` is the letter `lower` in either case.
pub open spec fn is_letter(c: char, lower: char, upper: char) -> bool {
    c == lower || c == upper
}

/// Whether `s` from `from` to its end spells `inf` or `infinity`, in any case.
pub open spec fn is_infinity_word(s: Seq<char>, from: int) -> bool {
    let short = s.len() - from == 3 && is_letter(s[from], 'i', 'I') && is_letter(
        s[from + 1],
        'n',
        'N',
    ) && is_letter(s[from + 2], 'f', 'F');
    let long = s.len() - from == 8 && is_letter(s[from], 'i', 'I') && is_letter(
        s[from + 1],
        'n',
        'N',
    ) && is_letter(s[from + 2], 'f', 'F') && is_letter(s[from + 3], 'i', 'I') && is_letter(
        s[from + 4],
        'n',
        'N',
    ) && is_letter(s[from + 5], 'i', 'I') && is_letter(s[from + 6], 't', 'T') && is_letter(
        s[from + 7],
        'y',
        'Y',
    );
    short || long
}

/// Whether `s` from `from` to its end spells `nan`, in any case.
pub open spec fn is_nan_word(s: Seq<char>, from: int) -> bool {
    s.len() - from == 3 && is_letter(s[from], 'n', 'N') && is_letter(s[from + 1], 'a', 'A')
        && is_letter(s[from + 2], 'n', 'N')
}

/// Where the body of a signed literal begins.
pub open spec fn after_sign(s: Seq<char>) -> int {
    if s.len() > 0 && is_sign(s[0]) {
        1
    } else {
        0
    }
}

/// Whether a text is a floating-point literal: an optional sign, then a
/// decimal number or one of the words `inf`, `infinity` and `nan`.
pub open spec fn is_float_literal(s: Seq<char>) -> bool {
    is_infinity_word(s, after_sign(s)) || is_nan_word(s, after_sign(s)) || is_decimal_number(
        s,
        after_sign(s),
    )
}

/// Whether a text is a floating-point literal that names no finite number.
pub open spec fn is_non_finite_word(s: Seq<char>) -> bool {
    is_infinity_word(s, after_sign(s)) || is_nan_word(s, after_sign(s))
}

fn count_digits(chars: &Vec<char>, from: usize) -> (n: usize)
    requires
        from <= chars.len(),
    ensures
        n == digit_run(chars@, from as int),
        from + n <= chars.len(),
    decreases chars.len() - from,
{
    if from < chars.len() && digit_of(chars[from]).is_some() {
        1 + count_digits(chars, from + 1)
    } else {
        0
    }
}

fn letter(c: char, lower: char, upper: char) -> (r: bool)
    ensures
        r == is_letter(c, lower, upper),
{
    c == lower || c == upper
}

fn exponent_at(chars: &Vec<char>, i: usize) -> (r: bool)
    requires
        i <= chars.len(),
    ensures
        r == is_exponent(chars@, i as int),
{
    if i >= chars.len() {
        return false;
    }
    if !(chars[i] == 'e' || chars[i] == 'E') {
        return false;
    }
    let digits: usize = if i + 1 < chars.len() && (chars[i + 1] == '+' || chars[i + 1] == '-') {
        i + 2
    } else {
        i + 1
    };
    let n = count_digits(chars, digits);
    n >= 1 && digits + n == chars.len()
}

fn words_at(chars: &Vec<char>, from: usize) -> (r: bool)
    requires
        from <= chars.len(),
    ensures
        r == (is_infinity_word(chars@, from as int) || is_nan_word(chars@, from as int)),
{
    let rest = chars.len() - from;
    if rest == 3 {
        let inf = letter(chars[from], 'i', 'I') && letter(chars[from + 1], 'n', 'N') && letter(
            chars[from + 2],
            'f',
            'F',
        );
        let nan = letter(chars[from], 'n', 'N') && letter(chars[from + 1], 'a', 'A') && letter(
            chars[from + 2],
            'n',
            'N',
        );
        inf || nan
    } else if rest == 8 {
        letter(chars[from], 'i', 'I') && letter(chars[from + 1], 'n', 'N') && letter(
            chars[from + 2],
            'f',
            'F',
        ) && letter(chars[from + 3], 'i', 'I') && letter(chars[from + 4], 'n', 'N') && letter(
            chars[from + 5],
            'i',
            'I',
        ) && letter(chars[from + 6], 't', 'T') && letter(chars[from + 7], 'y', 'Y')
    } else {
        false
    }
}

fn sign_end(chars: &Vec<char>) -> (from: usize)
    ensures
        from == after_sign(chars@),
        from <= chars.len(),
{
    if chars.len() > 0 && (chars[0] == '+' || chars[0] == '-') {
        1
    } else {
        0
    }
}

/// Tells whether `s` is a floating-point literal.
pub fn float_literal(s: &str) -> (r: bool)
    ensures
        r == is_float_literal(s@),
{
    let chars = chars_of(s);
    let from = sign_end(&chars);
    if words_at(&chars, from) {
        return true;
    }
    let whole = count_digits(&chars, from);
    let dot = from + whole;
    let pointed = dot < chars.len() && chars[dot] == '.';
    let fraction = if pointed {
        count_digits(&chars, dot + 1)
    } else {
        0
    };
    let end = if pointed {
        dot + 1 + fraction
    } else {
        dot
    };
    whole + fraction >= 1 && (end == chars.len() || exponent_at(&chars, end))
}

/// Tells whether `s` is one of the words for infinity or not-a-number.
pub fn non_finite_word(s: &str) -> (r: bool)
    ensures
        r == is_non_finite_word(s@),
{
    let chars = chars_of(s);
    let from = sign_end(&chars);
    words_at(&chars, from)
}

} // verus!
