//! Numbers and bytes as text.

use runtime_trail::text::{
    equal_ignoring_case, find, hex, hex_value, parse_hex, parse_unsigned, push_decimal, same, trim,
};

#[test]
fn numbers_are_written_in_decimal() {
    for number in [0, 9, 10, 42, 1_000, u64::MAX] {
        let mut text = "n=".to_owned();
        push_decimal(&mut text, number);
        assert_eq!(text, format!("n={number}"));
    }
}

#[test]
fn bytes_are_written_in_lowercase_hexadecimal() {
    assert_eq!(hex(&[]), "");
    assert_eq!(hex(&[0x00, 0x0f, 0xf0, 0xab, 0xff]), "000ff0abff");
}

#[test]
fn hexadecimal_reads_back_as_the_bytes_written() {
    let bytes: Vec<u8> = (0..=255).collect();
    assert_eq!(parse_hex(&hex(&bytes), "all", 256), Ok(bytes));
}

#[test]
fn a_digit_is_lowercase_hexadecimal_or_an_error() {
    assert_eq!(hex_value(b'0'), Ok(0));
    assert_eq!(hex_value(b'f'), Ok(15));
    assert_eq!(
        hex_value(b'F'),
        Err("hex ids use 0-9 and a-f, but the value contains 'F'".to_owned())
    );
    assert_eq!(
        hex_value(b'\n'),
        Err("hex ids use 0-9 and a-f, but the value contains '\\n'".to_owned())
    );
}

#[test]
fn the_first_stray_digit_is_named() {
    assert_eq!(
        parse_hex("0x1z", "id", 2),
        Err("hex ids use 0-9 and a-f, but the value contains 'x'".to_owned())
    );
    assert_eq!(
        parse_hex("00", "id", 2),
        Err("id must be 2 bytes, i.e. 4 lowercase hex characters".to_owned())
    );
}

#[test]
fn numbers_are_read_as_std_reads_them() {
    for text in [
        "", "+", "-", "0", "+0", "-0", "7", "+7", "++7", "007", " 7", "7 ", "a", "1a",
        "18446744073709551615", "18446744073709551616", "28446744073709551615",
        "99999999999999999999999", "00000000000000000000000000001",
    ] {
        assert_eq!(
            parse_unsigned(text.as_bytes()),
            text.parse::<u64>().ok(),
            "{text:?}"
        );
    }
}

#[test]
fn text_is_found_trimmed_and_compared() {
    assert_eq!(find(b"a;b;c", b';'), 1);
    assert_eq!(find(b"abc", b';'), 3);
    assert_eq!(trim(b"\t a b\r\n", 0, 7), (2, 5));
    assert_eq!(trim(b"   ", 0, 3).0, trim(b"   ", 0, 3).1);
    assert!(equal_ignoring_case(b"xAbCx", 1, 4, b"aBc"));
    assert!(!equal_ignoring_case(b"abc", 0, 3, b"abd"));
    assert!(!equal_ignoring_case(b"abc", 0, 3, b"ab"));
    assert!(!equal_ignoring_case(b"[", 0, 1, b"{"));
    assert!(same("a", "a") && !same("a", "A"));
}

#[test]
fn accepted_hexadecimal_is_written_back_as_it_was_read() {
    for text in ["", "00", "0f", "a1b2c3", "00ff00ff00ff00ff"] {
        let bytes = parse_hex(text, "id", text.len() / 2).expect("lower-case hexadecimal");
        assert_eq!(hex(&bytes), text);
    }
    assert!(parse_hex("A1", "id", 1).is_err(), "upper case is no such text");
}
