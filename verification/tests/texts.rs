use revng_fugue::address::{first_entry, function_name, meta_address, parse_address};
use revng_fugue::architecture::parse_architecture;
use revng_fugue::number::{append_decimal, append_hex, read_number, NumberError};
use revng_fugue::text::{chars_of, comes_before, escape_nul, has_nul, same_text};
use revng_fugue::{Address, Architecture, Error, Primitive, PrimitiveKind, Prototype};

fn message(parsed: Result<u64, String>) -> String {
    match parsed {
        Ok(number) => panic!("{number} was read"),
        Err(message) => message,
    }
}

#[test]
fn addresses_are_read_in_both_bases() {
    assert_eq!(parse_address("0x40787E"), Ok(0x40787e));
    assert_eq!(parse_address("0X40787e"), Ok(0x40787e));
    assert_eq!(parse_address("4225150"), Ok(4225150));
    assert_eq!(parse_address("0"), Ok(0));
    assert_eq!(parse_address("007"), Ok(7));
    assert_eq!(parse_address("+12"), Ok(12));
    assert_eq!(parse_address("0x+1f"), Ok(31));
    assert_eq!(parse_address("0xffffffffffffffff"), Ok(u64::MAX));
    assert_eq!(parse_address("18446744073709551615"), Ok(u64::MAX));
}

#[test]
fn what_is_no_address_is_refused_in_words() {
    assert_eq!(
        message(parse_address("")),
        "invalid address '': cannot parse integer from empty string"
    );
    assert_eq!(
        message(parse_address("0x")),
        "invalid address '0x': cannot parse integer from empty string"
    );
    assert_eq!(
        message(parse_address("12ab")),
        "invalid address '12ab': invalid digit found in string"
    );
    assert_eq!(
        message(parse_address("0xg")),
        "invalid address '0xg': invalid digit found in string"
    );
    assert_eq!(message(parse_address("+")), "invalid address '+': invalid digit found in string");
    assert_eq!(message(parse_address("-1")), "invalid address '-1': invalid digit found in string");
    assert_eq!(message(parse_address("ü")), "invalid address 'ü': invalid digit found in string");
    assert_eq!(
        message(parse_address("18446744073709551616")),
        "invalid address '18446744073709551616': number too large to fit in target type"
    );
    assert_eq!(
        message(parse_address("0x10000000000000000")),
        "invalid address '0x10000000000000000': number too large to fit in target type"
    );
}

#[test]
fn the_first_fault_decides_the_error() {
    assert_eq!(
        message(parse_address("99999999999999999999x")),
        "invalid address '99999999999999999999x': number too large to fit in target type"
    );
    assert_eq!(
        message(parse_address("x99999999999999999999")),
        "invalid address 'x99999999999999999999': invalid digit found in string"
    );
    assert_eq!(
        message(parse_address("1844674407370955161z")),
        "invalid address '1844674407370955161z': invalid digit found in string"
    );
}

#[test]
fn numbers_read_as_std_reads_them() {
    for text in [
        "", "+", "-", "0", "+0", "++1", "7f", "7F", "7g", "18446744073709551615",
        "18446744073709551616", "ffffffffffffffff", "10000000000000000", "0000000000000000000001",
        "1 ", " 1", "1_0", "١",
    ] {
        let characters = chars_of(text);
        for radix in [10u32, 16] {
            let expected = u64::from_str_radix(text, radix).map_err(|error| error.to_string());
            let read = read_number(&characters, 0, radix as u64)
                .map_err(|error| error.message().to_string());
            assert_eq!(read, expected, "{text} in base {radix}");
        }
    }
}

#[test]
fn numbers_are_read_from_a_place_on() {
    let characters = chars_of("zz10");
    assert_eq!(read_number(&characters, 2, 16), Ok(16));
    assert_eq!(read_number(&characters, 0, 16), Err(NumberError::InvalidDigit));
    assert_eq!(read_number(&characters, 4, 16), Err(NumberError::Empty));
}

#[test]
fn numbers_are_written_as_std_writes_them() {
    for value in [0u64, 1, 9, 10, 15, 16, 255, 256, 0x40787e, u64::MAX] {
        let mut text = String::from("at ");
        append_hex(&mut text, value);
        assert_eq!(text, format!("at {value:#x}"));
        assert_eq!(Address::new(value).text(), format!("{value:#x}"));
        assert_eq!(parse_address(&Address::new(value).text()), Ok(value));
    }
    for value in [0usize, 9, 10, 99, 100, 1234567890] {
        let mut text = String::from("n=");
        append_decimal(&mut text, value);
        assert_eq!(text, format!("n={value}"));
        assert_eq!(parse_address(&text[2..]), Ok(value as u64));
    }
}

#[test]
fn architectures_are_read_by_name() {
    assert_eq!(parse_architecture("x86"), Ok(Architecture::X86));
    assert_eq!(parse_architecture("x86_64"), Ok(Architecture::X86_64));
    assert_eq!(parse_architecture("aarch64"), Ok(Architecture::AArch64));
    for architecture in [Architecture::X86, Architecture::X86_64, Architecture::AArch64] {
        assert_eq!(parse_architecture(architecture.revng_name()), Ok(architecture));
    }
    assert_eq!(
        parse_architecture("mips"),
        Err("unknown architecture 'mips' (expected x86, x86_64 or aarch64)".to_string())
    );
    assert_eq!(
        parse_architecture("X86"),
        Err("unknown architecture 'X86' (expected x86, x86_64 or aarch64)".to_string())
    );
}

#[test]
fn architectures_know_their_pointers_and_abis() {
    assert_eq!(Architecture::X86.pointer_size(), 4);
    assert_eq!(Architecture::X86_64.pointer_size(), 8);
    assert_eq!(Architecture::AArch64.pointer_size(), 8);
    assert_eq!(Architecture::X86.default_abi(), "SystemV_x86");
    assert_eq!(Architecture::X86_64.default_abi(), "SystemV_x86_64");
    assert_eq!(Architecture::AArch64.default_abi(), "AAPCS64");
}

#[test]
fn meta_addresses_name_the_place_and_the_code() {
    assert_eq!(meta_address(0x40787e, Architecture::X86), "0x40787e:Code_x86");
    assert_eq!(meta_address(0, Architecture::X86_64), "0x0:Code_x86_64");
    assert_eq!(
        meta_address(u64::MAX, Architecture::AArch64),
        "0xffffffffffffffff:Code_aarch64"
    );
    assert_eq!(function_name(0x40787e), "function_0x40787e");
}

#[test]
fn entries_are_read_from_meta_addresses() {
    for address in [0u64, 0x40787e, u64::MAX] {
        for architecture in [Architecture::X86, Architecture::X86_64, Architecture::AArch64] {
            assert_eq!(first_entry(Some(&meta_address(address, architecture))), Some(address));
        }
    }
    assert_eq!(first_entry(Some("0x10")), Some(16));
    assert_eq!(first_entry(Some("0x10:a:b")), Some(16));
    assert_eq!(first_entry(Some("0x:Code_x86")), None);
    assert_eq!(first_entry(Some("0X10:Code_x86")), None);
    assert_eq!(first_entry(Some("16:Code_x86")), None);
    assert_eq!(first_entry(Some("0x1g:Code_x86")), None);
    assert_eq!(first_entry(Some("0x10000000000000000:Code_x86")), None);
    assert_eq!(first_entry(Some(":0x10")), None);
    assert_eq!(first_entry(Some("")), None);
    assert_eq!(first_entry(None), None);
}

#[test]
fn texts_are_compared_and_ordered() {
    assert!(same_text("llvm-root", "llvm-root"));
    assert!(!same_text("llvm-root", "llvm-roots"));
    assert!(!same_text("llvm-root", "llvm-rooT"));
    assert!(same_text("", ""));
    let words = ["", "a", "aa", "ab", "b", "z", "ä", "\u{10000}"];
    for left in words {
        for right in words {
            assert_eq!(comes_before(left, right), left < right, "{left} {right}");
        }
    }
}

#[test]
fn nul_characters_are_found_and_escaped() {
    assert!(has_nul("a\0b"));
    assert!(has_nul("\0"));
    assert!(!has_nul("a\\0b"));
    assert!(!has_nul(""));
    assert_eq!(escape_nul("a\0b\0"), "a\\0b\\0");
    assert_eq!(escape_nul("plain"), "plain");
    assert_eq!(escape_nul(""), "");
    assert_eq!(chars_of("añb"), vec!['a', 'ñ', 'b']);
}

#[test]
fn errors_keep_their_message() {
    assert_eq!(Error::pipeline("no").message(), "no");
    assert!(matches!(Error::pipeline("no"), Error::Pipeline(_)));
    assert_eq!(Error::codegen("bad".to_string()).message(), "bad");
    assert!(matches!(Error::codegen("bad".to_string()), Error::Codegen(_)));
    assert_eq!(Error::Load("gone".to_string()).message(), "gone");
}

#[test]
fn prototypes_are_made_from_what_is_returned() {
    let prototype = Prototype::returning(Primitive::generic(8));
    assert!(prototype.arguments.is_empty());
    assert_eq!(
        prototype.returns,
        Some(Primitive { kind: PrimitiveKind::Generic, size: 8 })
    );
}
