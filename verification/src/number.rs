//! Numbers in text: hexadecimal as addresses are written, decimal as counts are, and the reading of
//! both.

use vstd::prelude::*;

use crate::text::chars_of;
#[allow(unused_imports)]
use crate::text::nul_free;

verus! {

/// The character that stands for a digit below sixteen, in lower case.
pub open spec fn digit_char(digit: nat) -> char {
    if digit < 10 {
        ('0' as int + digit) as char
    } else {
        ('a' as int + digit - 10) as char
    }
}

/// The digits of `value` in base sixteen, most significant first, with no leading zero.
pub open spec fn hex_digits(value: nat) -> Seq<char>
    decreases value,
{
    if value < 16 {
        seq![digit_char(value)]
    } else {
        hex_digits(value / 16).push(digit_char(value % 16))
    }
}

/// `value` as `0x` and its hexadecimal digits.
pub open spec fn hex_text(value: u64) -> Seq<char> {
    seq!['0', 'x'] + hex_digits(value as nat)
}

/// The character of a digit below sixteen.
fn digit_character(digit: u8) -> (character: char)
    requires
        digit < 16,
    ensures
        character == digit_char(digit as nat),
{
    if digit < 10 {
        (48u8 + digit) as char
    } else {
        (97u8 + (digit - 10)) as char
    }
}

/// Writes the hexadecimal digits of `value` at the end of `text`.
fn append_hex_digits(text: &mut String, value: u64)
    ensures
        final(text)@ == old(text)@ + hex_digits(value as nat),
    decreases value,
{
    if value < 16 {
        text.push(digit_character(value as u8));
        assert(text@ == old(text)@ + hex_digits(value as nat));
    } else {
        append_hex_digits(text, value / 16);
        text.push(digit_character((value % 16) as u8));
        assert(text@ == old(text)@ + hex_digits(value as nat));
    }
}

/// Writes `0x` and the hexadecimal digits of `value` at the end of `text`.
pub fn append_hex(text: &mut String, value: u64)
    ensures
        final(text)@ == old(text)@ + hex_text(value),
{
    text.push('0');
    text.push('x');
    append_hex_digits(text, value);
    assert(text@ == old(text)@ + hex_text(value));
}

/// The digits of `value` in base ten, most significant first, with no leading zero.
pub open spec fn decimal_digits(value: nat) -> Seq<char>
    decreases value,
{
    if value < 10 {
        seq![digit_char(value)]
    } else {
        decimal_digits(value / 10).push(digit_char(value % 10))
    }
}

/// Writes the decimal digits of `value` at the end of `text`.
pub fn append_decimal(text: &mut String, value: usize)
    ensures
        final(text)@ == old(text)@ + decimal_digits(value as nat),
    decreases value,
{
    if value < 10 {
        text.push(digit_character(value as u8));
        assert(text@ == old(text)@ + decimal_digits(value as nat));
    } else {
        append_decimal(text, value / 10);
        text.push(digit_character((value % 10) as u8));
        assert(text@ == old(text)@ + decimal_digits(value as nat));
    }
}

/// Why a text is no number.
#[derive(Clone, Copy, Debug, PartialEq, Eq, Structural)]
pub enum NumberError {
    /// There is nothing to read.
    Empty,
    /// A character is no digit of the base.
    InvalidDigit,
    /// The number does not fit in 64 bits.
    Overflow,
}

impl NumberError {
    /// The error in words.
    pub open spec fn words(self) -> Seq<char> {
        match self {
            NumberError::Empty => "cannot parse integer from empty string"@,
            NumberError::InvalidDigit => "invalid digit found in string"@,
            NumberError::Overflow => "number too large to fit in target type"@,
        }
    }

    /// The error in words.
    pub fn message(self) -> (message: &'static str)
        ensures
            message@ == self.words(),
    {
        match self {
            NumberError::Empty => "cannot parse integer from empty string",
            NumberError::InvalidDigit => "invalid digit found in string",
            NumberError::Overflow => "number too large to fit in target type",
        }
    }
}

/// The value of `character` as a digit of base `radix`, in either case, for bases up to sixteen.
pub open spec fn digit_value(character: char, radix: nat) -> Option<nat> {
    let value: int = if '0' <= character <= '9' {
        character as int - '0' as int
    } else if 'a' <= character <= 'f' {
        character as int - 'a' as int + 10
    } else if 'A' <= character <= 'F' {
        character as int - 'A' as int + 10
    } else {
        16
    };
    if value < radix {
        Some(value as nat)
    } else {
        None
    }
}

/// The number that `digits` stand for, read from left to right; the first character that is no
/// digit, or that takes the number past 64 bits, decides the error.
pub open spec fn digits_read(digits: Seq<char>, radix: nat) -> Result<nat, NumberError>
    decreases digits.len(),
{
    if digits.len() == 0 {
        Ok(0)
    } else {
        match digits_read(digits.drop_last(), radix) {
            Err(error) => Err(error),
            Ok(value) => match digit_value(digits.last(), radix) {
                None => Err(NumberError::InvalidDigit),
                Some(digit) => if value * radix + digit > u64::MAX {
                    Err(NumberError::Overflow)
                } else {
                    Ok(value * radix + digit)
                },
            },
        }
    }
}

/// The number that `text` stands for in base `radix`: digits, which a plus sign may precede.
pub open spec fn number_read(text: Seq<char>, radix: nat) -> Result<nat, NumberError> {
    if text.len() == 0 {
        Err(NumberError::Empty)
    } else if text.len() > 1 && text[0] == '+' {
        digits_read(text.skip(1), radix)
    } else {
        digits_read(text, radix)
    }
}

/// The value of a digit of base ten or sixteen.
fn read_digit(character: char, radix: u64) -> (digit: Option<u64>)
    requires
        radix <= 16,
    ensures
        match digit {
            Some(value) => digit_value(character, radix as nat) == Some(value as nat),
            None => digit_value(character, radix as nat) is None,
        },
{
    let value: u64 = if '0' <= character && character <= '9' {
        (character as u64) - ('0' as u64)
    } else if 'a' <= character && character <= 'f' {
        (character as u64) - ('a' as u64) + 10
    } else if 'A' <= character && character <= 'F' {
        (character as u64) - ('A' as u64) + 10
    } else {
        16
    };
    if value < radix {
        Some(value)
    } else {
        None
    }
}

/// An error in a prefix is the error of the whole.
proof fn digits_read_error_stays(digits: Seq<char>, radix: nat, end: int)
    requires
        0 <= end <= digits.len(),
        digits_read(digits.take(end), radix) is Err,
    ensures
        digits_read(digits, radix) == digits_read(digits.take(end), radix),
    decreases digits.len() - end,
{
    if end == digits.len() {
        assert(digits.take(end) == digits);
    } else {
        assert(digits.take(end + 1).drop_last() == digits.take(end));
        digits_read_error_stays(digits, radix, end + 1);
    }
}

/// Reads the characters of `characters` from `start` on as digits of base `radix`.
fn read_digits(characters: &Vec<char>, start: usize, radix: u64) -> (read: Result<u64, NumberError>)
    requires
        start <= characters@.len(),
        1 <= radix <= 16,
    ensures
        match read {
            Ok(value) => digits_read(characters@.skip(start as int), radix as nat) == Ok::<
                nat,
                NumberError,
            >(value as nat),
            Err(error) => digits_read(characters@.skip(start as int), radix as nat) == Err::<
                nat,
                NumberError,
            >(error),
        },
{
    let ghost digits = characters@.skip(start as int);
    let mut value: u64 = 0;
    for i in start..characters.len()
        invariant
            start <= characters@.len(),
            1 <= radix <= 16,
            digits == characters@.skip(start as int),
            digits_read(digits.take(i - start), radix as nat) == Ok::<nat, NumberError>(value as nat),
    {
        proof {
            assert(digits.take(i + 1 - start).drop_last() == digits.take(i - start));
            assert(digits.take(i + 1 - start).last() == characters@[i as int]);
        }
        match read_digit(characters[i], radix) {
            None => {
                proof {
                    digits_read_error_stays(digits, radix as nat, i + 1 - start);
                }
                return Err(NumberError::InvalidDigit);
            },
            Some(digit) => {
                match value.checked_mul(radix) {
                    None => {
                        proof {
                            digits_read_error_stays(digits, radix as nat, i + 1 - start);
                        }
                        return Err(NumberError::Overflow);
                    },
                    Some(scaled) => {
                        match scaled.checked_add(digit) {
                            None => {
                                proof {
                                    digits_read_error_stays(digits, radix as nat, i + 1 - start);
                                }
                                return Err(NumberError::Overflow);
                            },
                            Some(sum) => {
                                value = sum;
                            },
                        }
                    },
                }
            },
        }
    }
    assert(digits.take(digits.len() as int) == digits);
    Ok(value)
}

/// Reads the characters of `characters` from `start` on as a number in base `radix`.
pub fn read_number(characters: &Vec<char>, start: usize, radix: u64) -> (read: Result<
    u64,
    NumberError,
>)
    requires
        start <= characters@.len(),
        1 <= radix <= 16,
    ensures
        match read {
            Ok(value) => number_read(characters@.skip(start as int), radix as nat) == Ok::<
                nat,
                NumberError,
            >(value as nat),
            Err(error) => number_read(characters@.skip(start as int), radix as nat) == Err::<
                nat,
                NumberError,
            >(error),
        },
{
    let ghost text = characters@.skip(start as int);
    if start == characters.len() {
        return Err(NumberError::Empty);
    }
    if characters.len() - start > 1 && characters[start] == '+' {
        assert(text.skip(1) == characters@.skip(start + 1));
        read_digits(characters, start + 1, radix)
    } else {
        read_digits(characters, start, radix)
    }
}

/// Reading the hexadecimal digits of a number gives the number back.
pub proof fn hex_digits_read_back(value: nat)
    requires
        value <= u64::MAX,
    ensures
        digits_read(hex_digits(value), 16) == Ok::<nat, NumberError>(value),
        hex_digits(value).len() > 0,
        forall|i: int| 0 <= i < hex_digits(value).len() ==> digit_value(
            #[trigger] hex_digits(value)[i],
            16,
        ) is Some,
    decreases value,
{
    let digits = hex_digits(value);
    assert(digit_value(digit_char(value % 16), 16) == Some(value % 16));
    if value < 16 {
        assert(digits.drop_last() == Seq::<char>::empty());
        assert(digits_read(digits.drop_last(), 16) == Ok::<nat, NumberError>(0));
        assert(digits.last() == digit_char(value % 16));
    } else {
        hex_digits_read_back(value / 16);
        assert(digits.drop_last() == hex_digits(value / 16));
        assert((value / 16) * 16 + value % 16 == value) by (nonlinear_arith);
    }
}

/// Reading the hexadecimal digits of a `u64` as a number gives the number back.
pub proof fn hex_number_read_back(value: u64)
    ensures
        number_read(hex_digits(value as nat), 16) == Ok::<nat, NumberError>(value as nat),
{
    hex_digits_read_back(value as nat);
    assert(digit_value(hex_digits(value as nat)[0], 16) is Some);
}

/// Reading the decimal digits of a number gives the number back.
pub proof fn decimal_digits_read_back(value: nat)
    requires
        value <= u64::MAX,
    ensures
        digits_read(decimal_digits(value), 10) == Ok::<nat, NumberError>(value),
        decimal_digits(value).len() > 0,
        forall|i: int| 0 <= i < decimal_digits(value).len() ==> digit_value(
            #[trigger] decimal_digits(value)[i],
            10,
        ) is Some,
    decreases value,
{
    let digits = decimal_digits(value);
    assert(digit_value(digit_char(value % 10), 10) == Some(value % 10));
    if value < 10 {
        assert(digits.drop_last() == Seq::<char>::empty());
        assert(digits_read(digits.drop_last(), 10) == Ok::<nat, NumberError>(0));
        assert(digits.last() == digit_char(value % 10));
    } else {
        decimal_digits_read_back(value / 10);
        assert(digits.drop_last() == decimal_digits(value / 10));
        assert((value / 10) * 10 + value % 10 == value) by (nonlinear_arith);
    }
}

/// Reading the decimal digits of a `u64` as a number gives the number back.
pub proof fn decimal_number_read_back(value: u64)
    ensures
        number_read(decimal_digits(value as nat), 10) == Ok::<nat, NumberError>(value as nat),
{
    decimal_digits_read_back(value as nat);
    assert(digit_value(decimal_digits(value as nat)[0], 10) is Some);
}

/// The hexadecimal form of a number holds no NUL character and no colon.
pub proof fn hex_text_is_plain(value: u64)
    ensures
        nul_free(hex_text(value)),
        !hex_text(value).contains(':'),
{
    hex_digits_read_back(value as nat);
    let digits = hex_digits(value as nat);
    assert forall|i: int| 0 <= i < hex_text(value).len() implies hex_text(value)[i] != '\0'
        && hex_text(value)[i] != ':' by {
        if i >= 2 {
            assert(digit_value(digits[i - 2], 16) is Some);
        }
    }
}

/// A number below sixteen is written in hexadecimal as `0x` and one digit; each other as what a
/// sixteenth of it is written as, and one digit more.
pub proof fn hexadecimal_is_written_digit_by_digit(value: u64)
    ensures
        value < 16 ==> hex_text(value) == seq!['0', 'x', "0123456789abcdef"@[value as int]],
        value >= 16 ==> hex_text(value) == hex_text(value / 16).push(
            "0123456789abcdef"@[(value % 16) as int],
        ),
{
    reveal_strlit("0123456789abcdef");
    assert(digit_char(value as nat % 16) == "0123456789abcdef"@[(value % 16) as int]);
    if value < 16 {
        assert(hex_text(value) == seq!['0', 'x', "0123456789abcdef"@[value as int]]);
    } else {
        assert(hex_text(value) == hex_text(value / 16).push(
            "0123456789abcdef"@[(value % 16) as int],
        ));
    }
}

/// A number below ten is written in decimal as one digit; each other as what a tenth of it is
/// written as, and one digit more.
pub proof fn decimal_is_written_digit_by_digit(value: nat)
    ensures
        value < 10 ==> decimal_digits(value) == seq!["0123456789"@[value as int]],
        value >= 10 ==> decimal_digits(value) == decimal_digits(value / 10).push(
            "0123456789"@[(value % 10) as int],
        ),
{
    reveal_strlit("0123456789");
    assert(digit_char(value % 10) == "0123456789"@[(value % 10) as int]);
}

/// Digits are read from left to right, in either case: one digit more makes the number the base
/// times as large and adds its value, unless that is past 64 bits; another character is no digit;
/// an error stays. A plus sign before digits makes no difference, and nothing is no number.
pub proof fn digits_are_read_one_by_one(digits: Seq<char>, character: char, radix: nat)
    requires
        radix == 10 || radix == 16,
    ensures
        digits_read(Seq::empty(), radix) == Ok::<nat, NumberError>(0),
        digits_read(digits, radix) is Err ==> digits_read(digits.push(character), radix)
            == digits_read(digits, radix),
        digits_read(digits, radix) matches Ok(value) ==> (forall|digit: int|
            0 <= digit < radix && (character == #[trigger] "0123456789abcdef"@[digit] || character
                == "0123456789ABCDEF"@[digit]) ==> digits_read(digits.push(character), radix) == (
            if value * radix + digit <= u64::MAX {
                Ok::<nat, NumberError>((value * radix + digit) as nat)
            } else {
                Err::<nat, NumberError>(NumberError::Overflow)
            })),
        digits_read(digits, radix) is Ok && (forall|digit: int|
            0 <= digit < radix ==> character != #[trigger] "0123456789abcdef"@[digit] && character
                != "0123456789ABCDEF"@[digit]) ==> digits_read(digits.push(character), radix)
            == Err::<nat, NumberError>(NumberError::InvalidDigit),
        number_read(Seq::empty(), radix) == Err::<nat, NumberError>(NumberError::Empty),
        digits.len() > 0 && digits[0] != '+' ==> number_read(digits, radix) == digits_read(
            digits,
            radix,
        ),
        digits.len() > 0 ==> number_read(seq!['+'] + digits, radix) == digits_read(digits, radix),
        number_read(seq!['+'], radix) == Err::<nat, NumberError>(NumberError::InvalidDigit),
{
    reveal_strlit("0123456789abcdef");
    reveal_strlit("0123456789ABCDEF");
    assert(digits.push(character).drop_last() == digits);
    assert((seq!['+'] + digits).skip(1) == digits);
    assert(seq!['+'].drop_last() == Seq::<char>::empty());
    assert(digits_read(Seq::<char>::empty(), radix) == Ok::<nat, NumberError>(0));
    if digit_value(character, radix) is Some {
        let digit = digit_value(character, radix)->0 as int;
        let lower = "0123456789abcdef"@[digit];
        let upper = "0123456789ABCDEF"@[digit];
        assert(character == lower || character == upper);
        assert(0 <= digit < radix);
    } else if digits_read(digits, radix) is Ok {
        assert(digits_read(digits.push(character), radix) == Err::<nat, NumberError>(
            NumberError::InvalidDigit,
        ));
    }
}

} // verus!
