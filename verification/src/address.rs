//! Addresses, and the meta addresses that revng names code by.

use vstd::prelude::*;

use crate::architecture::Architecture;
#[allow(unused_imports)]
use crate::architecture::architecture_read_back;
use crate::number::{append_hex, read_number, NumberError};
#[allow(unused_imports)]
use crate::number::{
    decimal_digits, decimal_digits_read_back, decimal_number_read_back, digit_value, hex_digits,
    hex_number_read_back, hex_text, hex_text_is_plain, number_read,
};
use crate::text::chars_of;
#[allow(unused_imports)]
use crate::text::{nul_free, nul_free_concat};

verus! {

/// An address in a binary.
#[derive(Clone, Copy, Debug, PartialEq, Eq, Structural)]
pub struct Address(pub u64);

impl Address {
    /// The address of this value.
    pub fn new(value: u64) -> (address: Address)
        ensures
            address.0 == value,
    {
        Address(value)
    }

    /// The address as it is shown: in hexadecimal.
    pub fn text(self) -> (text: String)
        ensures
            text@ == hex_text(self.0),
    {
        let mut text = String::new();
        append_hex(&mut text, self.0);
        assert(text@ == hex_text(self.0));
        text
    }

    /// The value of the address.
    pub fn value(self) -> (value: u64)
        ensures
            value == self.0,
    {
        self.0
    }
}

/// The number that an address on the command line stands for: hexadecimal after `0x` or `0X`,
/// decimal otherwise.
pub open spec fn address_read(value: Seq<char>) -> Result<nat, NumberError> {
    if value.len() >= 2 && value[0] == '0' && (value[1] == 'x' || value[1] == 'X') {
        number_read(value.skip(2), 16)
    } else {
        number_read(value, 10)
    }
}

/// What to say of a text that is no address.
pub open spec fn invalid_address(value: Seq<char>, error: NumberError) -> Seq<char> {
    "invalid address '"@ + value + "': "@ + error.words()
}

/// Reads an address as it is given on the command line.
pub fn parse_address(value: &str) -> (parsed: Result<u64, String>)
    ensures
        match parsed {
            Ok(number) => address_read(value@) == Ok::<nat, NumberError>(number as nat),
            Err(message) => address_read(value@) is Err && message@ == invalid_address(
                value@,
                address_read(value@)->Err_0,
            ),
        },
{
    let characters = chars_of(value);
    let read = if characters.len() >= 2 && characters[0] == '0' && (characters[1] == 'x'
        || characters[1] == 'X') {
        read_number(&characters, 2, 16)
    } else {
        assert(characters@.skip(0) == characters@);
        read_number(&characters, 0, 10)
    };
    match read {
        Ok(number) => Ok(number),
        Err(error) => {
            let mut message = "invalid address '".to_owned();
            message.append(value);
            message.append("': ");
            message.append(error.message());
            Err(message)
        },
    }
}

/// The meta address of `address`: where the code is, and what code it is.
pub open spec fn meta_address_text(address: u64, architecture: Architecture) -> Seq<char> {
    hex_text(address) + ":Code_"@ + architecture.name()
}

/// Writes the meta address of `address`.
pub fn meta_address(address: u64, architecture: Architecture) -> (text: String)
    ensures
        text@ == meta_address_text(address, architecture),
        nul_free(text@),
{
    let mut text = String::new();
    append_hex(&mut text, address);
    assert(text@ == hex_text(address));
    text.append(":Code_");
    text.append(architecture.revng_name());
    proof {
        meta_address_is_nul_free(address, architecture);
    }
    text
}

/// The name that a function which is declared at `address` goes by.
pub open spec fn function_name_text(address: u64) -> Seq<char> {
    "function_"@ + hex_text(address)
}

/// Writes the name of a function which is declared at `address`.
pub fn function_name(address: u64) -> (text: String)
    ensures
        text@ == function_name_text(address),
        nul_free(text@),
{
    let mut text = "function_".to_owned();
    append_hex(&mut text, address);
    proof {
        function_name_is_nul_free(address);
    }
    text
}

/// `text` up to its first colon, or all of it where there is none.
pub open spec fn before_colon(text: Seq<char>) -> Seq<char>
    decreases text.len(),
{
    if text.len() == 0 || text[0] == ':' {
        Seq::empty()
    } else {
        seq![text[0]] + before_colon(text.drop_first())
    }
}

/// The address in a meta address: the number after `0x`, before the first colon.
pub open spec fn entry_read(text: Seq<char>) -> Option<u64> {
    let address = before_colon(text);
    if address.len() >= 2 && address[0] == '0' && address[1] == 'x' {
        match number_read(address.skip(2), 16) {
            Ok(number) => Some(number as u64),
            Err(_) => None,
        }
    } else {
        None
    }
}

/// The address of the first entry that was asked for, if there is a first entry and it is a meta
/// address.
pub fn first_entry(first: Option<&str>) -> (address: Option<u64>)
    ensures
        address == match first {
            Some(text) => entry_read(text@),
            None => None,
        },
{
    let text = match first {
        Some(text) => text,
        None => {
            return None;
        },
    };
    let characters = chars_of(text);
    let mut address: Vec<char> = Vec::new();
    let mut i: usize = 0;
    assert(characters@.skip(0) == characters@);
    while i < characters.len() && characters[i] != ':'
        invariant
            i <= characters@.len(),
            characters@ == text@,
            before_colon(text@) == address@ + before_colon(characters@.skip(i as int)),
        decreases characters@.len() - i,
    {
        assert(characters@.skip(i as int).drop_first() == characters@.skip(i + 1));
        address.push(characters[i]);
        i += 1;
    }
    assert(address@ == before_colon(text@));
    if address.len() >= 2 && address[0] == '0' && address[1] == 'x' {
        match read_number(&address, 2, 16) {
            Ok(number) => Some(number),
            Err(_) => None,
        }
    } else {
        None
    }
}

/// A meta address holds no NUL character.
pub proof fn meta_address_is_nul_free(address: u64, architecture: Architecture)
    ensures
        nul_free(meta_address_text(address, architecture)),
{
    hex_text_is_plain(address);
    reveal_strlit(":Code_");
    reveal_strlit("x86");
    reveal_strlit("x86_64");
    reveal_strlit("aarch64");
    nul_free_concat(hex_text(address), ":Code_"@);
    nul_free_concat(hex_text(address) + ":Code_"@, architecture.name());
}

/// The name of a declared function holds no NUL character.
pub proof fn function_name_is_nul_free(address: u64)
    ensures
        nul_free(function_name_text(address)),
{
    hex_text_is_plain(address);
    reveal_strlit("function_");
    nul_free_concat("function_"@, hex_text(address));
}

/// What stands before the first colon is what was put there.
proof fn before_colon_of_concat(address: Seq<char>, rest: Seq<char>)
    requires
        !address.contains(':'),
    ensures
        before_colon(address + seq![':'] + rest) == address,
    decreases address.len(),
{
    let text = address + seq![':'] + rest;
    if address.len() > 0 {
        let tail = address.drop_first();
        assert(address.contains(address[0]));
        assert forall|c: char| tail.contains(c) implies address.contains(c) by {
            let i = choose|i: int| 0 <= i < tail.len() && tail[i] == c;
            assert(address[i + 1] == c);
        }
        assert(text.drop_first() == tail + seq![':'] + rest);
        before_colon_of_concat(tail, rest);
        assert(seq![address[0]] + tail == address);
    }
}

/// The entry that is read from the meta address of an address is that address, whatever the
/// architecture.
pub proof fn meta_address_read_back(address: u64, architecture: Architecture)
    ensures
        entry_read(meta_address_text(address, architecture)) == Some(address),
{
    let text = hex_text(address);
    let rest = seq!['C', 'o', 'd', 'e', '_'] + architecture.name();
    reveal_strlit(":Code_");
    assert(":Code_"@ == seq![':'] + seq!['C', 'o', 'd', 'e', '_']);
    assert(meta_address_text(address, architecture) == text + seq![':'] + rest);
    hex_text_is_plain(address);
    before_colon_of_concat(text, rest);
    hex_number_read_back(address);
    assert(text.skip(2) == hex_digits(address as nat));
}

/// An address that is written in decimal is read back from the command line as it was.
pub proof fn decimal_address_read_back(address: u64)
    ensures
        address_read(decimal_digits(address as nat)) == Ok::<nat, NumberError>(address as nat),
{
    decimal_digits_read_back(address as nat);
    decimal_number_read_back(address);
    let text = decimal_digits(address as nat);
    if text.len() >= 2 {
        assert(digit_value(text[1], 10) is Some);
    }
}

/// An address that is written in hexadecimal is read back from the command line as it was.
pub proof fn hex_address_read_back(address: u64)
    ensures
        address_read(hex_text(address)) == Ok::<nat, NumberError>(address as nat),
{
    hex_number_read_back(address);
    assert(hex_text(address).skip(2) == hex_digits(address as nat));
}

/// Whatever follows the first colon of a meta address makes no difference to the entry that is read
/// from it.
pub proof fn entry_stands_before_the_colon(address: Seq<char>, rest: Seq<char>)
    requires
        !address.contains(':'),
    ensures
        entry_read(address + seq![':'] + rest) == entry_read(address),
{
    before_colon_of_concat(address, rest);
    before_colon_without_colon(address);
}

/// An entry is read where hexadecimal digits follow `0x`, and nowhere else.
pub proof fn entry_is_hexadecimal(address: Seq<char>, digits: Seq<char>)
    requires
        !address.contains(':'),
        !digits.contains(':'),
    ensures
        entry_read(seq!['0', 'x'] + digits) == match number_read(digits, 16) {
            Ok(number) => Some(number as u64),
            Err(_) => None,
        },
        (address.len() < 2 || address[0] != '0' || address[1] != 'x') ==> entry_read(address)
            is None,
{
    let text = seq!['0', 'x'] + digits;
    assert forall|c: char| text.contains(c) implies c != ':' by {
        let i = choose|i: int| 0 <= i < text.len() && text[i] == c;
        if i >= 2 {
            assert(digits.contains(digits[i - 2]));
        }
    }
    before_colon_without_colon(text);
    before_colon_without_colon(address);
    assert(text.skip(2) == digits);
}

/// A text without a colon stands before it whole.
proof fn before_colon_without_colon(text: Seq<char>)
    requires
        !text.contains(':'),
    ensures
        before_colon(text) == text,
    decreases text.len(),
{
    if text.len() > 0 {
        let rest = text.drop_first();
        assert(text.contains(text[0]));
        assert forall|c: char| rest.contains(c) implies text.contains(c) by {
            let i = choose|i: int| 0 <= i < rest.len() && rest[i] == c;
            assert(text[i + 1] == c);
        }
        before_colon_without_colon(rest);
        assert(seq![text[0]] + rest == text);
    }
}

/// An address on the command line is hexadecimal after `0x` and after `0X`, and decimal otherwise;
/// what is said of one that cannot be read has the text and the reason.
pub proof fn address_base_follows_the_prefix(value: Seq<char>)
    ensures
        address_read(seq!['0', 'x'] + value) == number_read(value, 16),
        address_read(seq!['0', 'X'] + value) == number_read(value, 16),
        value.len() < 2 || value[0] != '0' || (value[1] != 'x' && value[1] != 'X') ==> address_read(
            value,
        ) == number_read(value, 10),
        invalid_address(value, NumberError::Empty) == "invalid address '"@ + value
            + "': cannot parse integer from empty string"@,
        invalid_address(value, NumberError::InvalidDigit) == "invalid address '"@ + value
            + "': invalid digit found in string"@,
        invalid_address(value, NumberError::Overflow) == "invalid address '"@ + value
            + "': number too large to fit in target type"@,
{
    assert((seq!['0', 'x'] + value).skip(2) == value);
    assert((seq!['0', 'X'] + value).skip(2) == value);
    reveal_strlit("': ");
    reveal_strlit("cannot parse integer from empty string");
    reveal_strlit("': cannot parse integer from empty string");
    reveal_strlit("invalid digit found in string");
    reveal_strlit("': invalid digit found in string");
    reveal_strlit("number too large to fit in target type");
    reveal_strlit("': number too large to fit in target type");
    assert("': "@ + NumberError::Empty.words() == "': cannot parse integer from empty string"@);
    assert("': "@ + NumberError::InvalidDigit.words() == "': invalid digit found in string"@);
    assert("': "@ + NumberError::Overflow.words() == "': number too large to fit in target type"@);
    let start = "invalid address '"@ + value;
    assert(start + "': "@ + NumberError::Empty.words() == start + ("': "@
        + NumberError::Empty.words()));
    assert(start + "': "@ + NumberError::InvalidDigit.words() == start + ("': "@
        + NumberError::InvalidDigit.words()));
    assert(start + "': "@ + NumberError::Overflow.words() == start + ("': "@
        + NumberError::Overflow.words()));
}

/// A meta address is the address in hexadecimal, `:Code_`, and the name of the architecture; the
/// name of a declared function is `function_` and the address in hexadecimal.
pub proof fn meta_address_has_three_parts(address: u64, architecture: Architecture)
    ensures
        meta_address_text(address, architecture) == hex_text(address) + ":Code_"@ + (
        match architecture {
            Architecture::X86 => "x86"@,
            Architecture::X86_64 => "x86_64"@,
            Architecture::AArch64 => "aarch64"@,
        }),
        function_name_text(address) == "function_"@ + hex_text(address),
{
}

/// Two addresses, or two architectures, never have the same meta address.
pub proof fn meta_addresses_differ(
    first: u64,
    first_architecture: Architecture,
    second: u64,
    second_architecture: Architecture,
)
    requires
        meta_address_text(first, first_architecture) == meta_address_text(
            second,
            second_architecture,
        ),
    ensures
        first == second,
        first_architecture == second_architecture,
{
    meta_address_read_back(first, first_architecture);
    meta_address_read_back(second, second_architecture);
    let start = hex_text(first) + ":Code_"@;
    let text = meta_address_text(first, first_architecture);
    assert(text.skip(start.len() as int) == first_architecture.name());
    assert(text.skip(start.len() as int) == second_architecture.name());
    architecture_read_back(first_architecture);
    architecture_read_back(second_architecture);
}

} // verus!
