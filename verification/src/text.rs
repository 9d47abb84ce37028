//! Numbers as decimal text: how a balance is written in a message, and how
//! an amount that a user typed is read.

use vstd::prelude::*;

verus! {

/// The character of a decimal digit.
pub open spec fn digit_char(digit: nat) -> char
    recommends
        digit < 10,
{
    if digit == 0 {
        '0'
    } else if digit == 1 {
        '1'
    } else if digit == 2 {
        '2'
    } else if digit == 3 {
        '3'
    } else if digit == 4 {
        '4'
    } else if digit == 5 {
        '5'
    } else if digit == 6 {
        '6'
    } else if digit == 7 {
        '7'
    } else if digit == 8 {
        '8'
    } else {
        '9'
    }
}

/// The digit that a character stands for, if it is a decimal digit.
pub open spec fn digit_value(c: char) -> Option<nat> {
    if c == '0' {
        Some(0)
    } else if c == '1' {
        Some(1)
    } else if c == '2' {
        Some(2)
    } else if c == '3' {
        Some(3)
    } else if c == '4' {
        Some(4)
    } else if c == '5' {
        Some(5)
    } else if c == '6' {
        Some(6)
    } else if c == '7' {
        Some(7)
    } else if c == '8' {
        Some(8)
    } else if c == '9' {
        Some(9)
    } else {
        None
    }
}

/// A number in decimal, without sign and without leading zeros.
pub open spec fn decimal(n: nat) -> Seq<char>
    decreases n,
{
    if n < 10 {
        seq![digit_char(n)]
    } else {
        decimal(n / 10).push(digit_char(n % 10))
    }
}

/// Why a text is no amount.
#[derive(Clone, Copy, PartialEq, Eq, Debug, Structural)]
pub enum NumberError {
    /// The text is empty.
    Empty,
    /// The text holds a character that is no decimal digit, or a sign alone.
    InvalidDigit,
    /// The number does not fit into 64 bits.
    TooLarge,
}

/// The number that a run of digits stands for, read from the left; the
/// first character that is no digit, or with which the number outgrows 64
/// bits, decides the failure.
pub open spec fn digits_value(digits: Seq<char>) -> Result<u64, NumberError>
    decreases digits.len(),
{
    if digits.len() == 0 {
        Ok(0)
    } else {
        match digits_value(digits.drop_last()) {
            Err(error) => Err(error),
            Ok(value) => match digit_value(digits.last()) {
                None => Err(NumberError::InvalidDigit),
                Some(digit) => if value * 10 + digit > u64::MAX {
                    Err(NumberError::TooLarge)
                } else {
                    Ok((value * 10 + digit) as u64)
                },
            },
        }
    }
}

/// The amount that a text stands for: decimal digits, which a single `+`
/// may precede.
pub open spec fn number(text: Seq<char>) -> Result<u64, NumberError> {
    if text.len() == 0 {
        Err(NumberError::Empty)
    } else if text.len() == 1 && (text[0] == '+' || text[0] == '-') {
        Err(NumberError::InvalidDigit)
    } else if text[0] == '+' {
        digits_value(text.skip(1))
    } else {
        digits_value(text)
    }
}

/// The text of one decimal digit.
fn digit_text(digit: u64) -> (text: &'static str)
    requires
        digit < 10,
    ensures
        text@ == seq![digit_char(digit as nat)],
{
    proof {
        reveal_strlit("0");
        reveal_strlit("1");
        reveal_strlit("2");
        reveal_strlit("3");
        reveal_strlit("4");
        reveal_strlit("5");
        reveal_strlit("6");
        reveal_strlit("7");
        reveal_strlit("8");
        reveal_strlit("9");
    }
    let text = if digit == 0 {
        "0"
    } else if digit == 1 {
        "1"
    } else if digit == 2 {
        "2"
    } else if digit == 3 {
        "3"
    } else if digit == 4 {
        "4"
    } else if digit == 5 {
        "5"
    } else if digit == 6 {
        "6"
    } else if digit == 7 {
        "7"
    } else if digit == 8 {
        "8"
    } else {
        "9"
    };
    text
}

/// Writes `n` in decimal.
pub fn decimal_string(n: u64) -> (text: String)
    ensures
        text@ == decimal(n as nat),
    decreases n,
{
    if n < 10 {
        String::from_str(digit_text(n))
    } else {
        let mut text = decimal_string(n / 10);
        text.append(digit_text(n % 10));
        text
    }
}

/// The digit that `c` stands for, if it is a decimal digit.
fn digit_of(c: char) -> (digit: Option<u64>)
    ensures
        match digit {
            Some(d) => digit_value(c) == Some(d as nat),
            None => digit_value(c) is None,
        },
{
    if c == '0' {
        Some(0)
    } else if c == '1' {
        Some(1)
    } else if c == '2' {
        Some(2)
    } else if c == '3' {
        Some(3)
    } else if c == '4' {
        Some(4)
    } else if c == '5' {
        Some(5)
    } else if c == '6' {
        Some(6)
    } else if c == '7' {
        Some(7)
    } else if c == '8' {
        Some(8)
    } else if c == '9' {
        Some(9)
    } else {
        None
    }
}

/// Reads an amount: decimal digits, which a single `+` may precede.
pub fn parse_number(text: &str) -> (result: Result<u64, NumberError>)
    ensures
        result == number(text@),
{
    let len = text.unicode_len();
    if len == 0 {
        return Err(NumberError::Empty);
    }
    let first = text.get_char(0);
    if len == 1 && (first == '+' || first == '-') {
        return Err(NumberError::InvalidDigit);
    }
    let start: usize = if first == '+' {
        1
    } else {
        0
    };
    let ghost digits = text@.skip(start as int);
    let mut value: u64 = 0;
    let mut i: usize = start;
    assert(text@.skip(0) =~= text@);
    while i < len
        invariant
            start <= i <= len,
            len == text@.len(),
            digits == text@.skip(start as int),
            number(text@) == digits_value(digits),
            digits_value(digits.take(i - start)) == Ok::<u64, NumberError>(value),
        decreases len - i,
    {
        let ghost read = digits.take(i - start + 1);
        proof {
            assert(read.drop_last() =~= digits.take(i - start));
            lemma_digits_value_fails_on(read, digits);
        }
        let digit = match digit_of(text.get_char(i)) {
            Some(digit) => digit,
            None => {
                return Err(NumberError::InvalidDigit);
            },
        };
        let tenfold = match value.checked_mul(10) {
            Some(tenfold) => tenfold,
            None => {
                return Err(NumberError::TooLarge);
            },
        };
        value = match tenfold.checked_add(digit) {
            Some(sum) => sum,
            None => {
                return Err(NumberError::TooLarge);
            },
        };
        i += 1;
    }
    assert(digits.take(i - start) =~= digits);
    Ok(value)
}

/// A run of digits that fails to be a number makes every longer run fail
/// in the same way.
pub proof fn lemma_digits_value_fails_on(read: Seq<char>, digits: Seq<char>)
    requires
        read.len() <= digits.len(),
        read =~= digits.take(read.len() as int),
    ensures
        digits_value(read) is Err ==> digits_value(digits) == digits_value(read),
    decreases digits.len(),
{
    if read.len() < digits.len() {
        lemma_digits_value_fails_on(read, digits.drop_last());
    } else {
        assert(read =~= digits);
    }
}

/// What is written in decimal reads back as the same number.
pub proof fn lemma_decimal_reads_back(n: u64)
    ensures
        number(decimal(n as nat)) == Ok::<u64, NumberError>(n),
        digits_value(decimal(n as nat)) == Ok::<u64, NumberError>(n),
        decimal(n as nat).len() > 0,
        digit_value(decimal(n as nat)[0]) is Some,
    decreases n,
{
    let text = decimal(n as nat);
    if n < 10 {
    } else {
        let shorter = (n / 10) as u64;
        lemma_decimal_reads_back(shorter);
        assert(text.drop_last() =~= decimal(shorter as nat));
        assert(text[0] == decimal(shorter as nat)[0]);
    }
}

} // verus!
