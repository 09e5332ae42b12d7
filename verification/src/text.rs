//! Text: decimal numbers, hexadecimal bytes, and how std shows characters and
//! strings for debugging.

use vstd::prelude::*;

verus! {

/// A decimal digit's text.
pub open spec fn digit_text(digit: int) -> Seq<char> {
    if digit == 0 {
        "0"@
    } else if digit == 1 {
        "1"@
    } else if digit == 2 {
        "2"@
    } else if digit == 3 {
        "3"@
    } else if digit == 4 {
        "4"@
    } else if digit == 5 {
        "5"@
    } else if digit == 6 {
        "6"@
    } else if digit == 7 {
        "7"@
    } else if digit == 8 {
        "8"@
    } else {
        "9"@
    }
}

/// A number's decimal digits, without leading zeros.
pub open spec fn decimal(number: nat) -> Seq<char>
    decreases number,
{
    if number < 10 {
        digit_text(number as int)
    } else {
        decimal(number / 10) + digit_text((number % 10) as int)
    }
}

fn digit(number: u64) -> (text: &'static str)
    requires
        number < 10,
    ensures
        text@ == digit_text(number as int),
{
    if number == 0 {
        "0"
    } else if number == 1 {
        "1"
    } else if number == 2 {
        "2"
    } else if number == 3 {
        "3"
    } else if number == 4 {
        "4"
    } else if number == 5 {
        "5"
    } else if number == 6 {
        "6"
    } else if number == 7 {
        "7"
    } else if number == 8 {
        "8"
    } else {
        "9"
    }
}

/// Appends a number in decimal.
pub fn push_decimal(text: &mut String, number: u64)
    ensures
        final(text)@ == old(text)@ + decimal(number as nat),
    decreases number,
{
    if number >= 10 {
        push_decimal(text, number / 10);
    }
    text.append(digit(number % 10));
    assert(text@ =~= old(text)@ + decimal(number as nat));
}

/// The character of a hexadecimal digit, in lower case.
pub open spec fn hex_char(digit: int) -> char {
    if digit < 10 {
        (48 + digit) as char
    } else {
        (87 + digit) as char
    }
}

/// Bytes in hexadecimal: two lower-case digits each, the high one first.
pub open spec fn hex_text(bytes: Seq<u8>) -> Seq<char>
    decreases bytes.len(),
{
    if bytes.len() == 0 {
        Seq::empty()
    } else {
        hex_text(bytes.drop_last()) + seq![
            hex_char(bytes.last() as int / 16),
            hex_char(bytes.last() as int % 16),
        ]
    }
}

fn hex_digit(digit: u8) -> (text: &'static str)
    requires
        digit < 16,
    ensures
        text@ == seq![hex_char(digit as int)],
{
    proof {
        reveal_strlit("0");
        reveal_strlit("1");
        reveal_strlit("2");
        reveal_strlit("3");
        reveal_strlit("4");
        reveal_strlit("5");
        reveal_strlit("6");
        reveal_strlit("7");
        reveal_strlit("8");
        reveal_strlit("9");
        reveal_strlit("a");
        reveal_strlit("b");
        reveal_strlit("c");
        reveal_strlit("d");
        reveal_strlit("e");
        reveal_strlit("f");
    }
    let text: &'static str = if digit == 0 {
        "0"
    } else if digit == 1 {
        "1"
    } else if digit == 2 {
        "2"
    } else if digit == 3 {
        "3"
    } else if digit == 4 {
        "4"
    } else if digit == 5 {
        "5"
    } else if digit == 6 {
        "6"
    } else if digit == 7 {
        "7"
    } else if digit == 8 {
        "8"
    } else if digit == 9 {
        "9"
    } else if digit == 10 {
        "a"
    } else if digit == 11 {
        "b"
    } else if digit == 12 {
        "c"
    } else if digit == 13 {
        "d"
    } else if digit == 14 {
        "e"
    } else {
        "f"
    };
    assert(text@ =~= seq![hex_char(digit as int)]);
    text
}

/// Bytes in lower-case hexadecimal.
pub fn hex(bytes: &[u8]) -> (text: String)
    ensures
        text@ == hex_text(bytes@),
{
    let mut text = String::new();
    let mut i: usize = 0;
    while i < bytes.len()
        invariant
            i <= bytes@.len(),
            text@ == hex_text(bytes@.take(i as int)),
        decreases bytes@.len() - i,
    {
        assert(bytes@.take(i + 1).drop_last() =~= bytes@.take(i as int));
        let ghost before = text@;
        text.append(hex_digit(bytes[i] / 16));
        text.append(hex_digit(bytes[i] % 16));
        assert(text@ =~= before + seq![
            hex_char(bytes@[i as int] as int / 16),
            hex_char(bytes@[i as int] as int % 16),
        ]);
        i += 1;
    }
    assert(bytes@.take(i as int) =~= bytes@);
    text
}

/// The UTF-8 bytes of text.
pub open spec fn bytes_of_text(text: Seq<char>) -> Seq<u8> {
    vstd::utf8::encode_utf8(text)
}

/// The value of a lower-case hexadecimal digit.
pub open spec fn hex_digit_value(byte: u8) -> Option<u8> {
    if 48 <= byte <= 57 {
        Some((byte - 48) as u8)
    } else if 97 <= byte <= 102 {
        Some((byte - 87) as u8)
    } else {
        None
    }
}

/// The first of these bytes that is no hexadecimal digit.
pub open spec fn first_stray(digits: Seq<u8>) -> Option<u8>
    decreases digits.len(),
{
    if digits.len() == 0 {
        None
    } else if first_stray(digits.drop_last()) is Some {
        first_stray(digits.drop_last())
    } else if hex_digit_value(digits.last()) is None {
        Some(digits.last())
    } else {
        None
    }
}

/// The bytes that pairs of hexadecimal digits stand for.
pub open spec fn hex_bytes(digits: Seq<u8>) -> Seq<u8> {
    Seq::new(
        digits.len() / 2,
        |i: int|
            (hex_digit_value(digits[2 * i])->Some_0 * 16 + hex_digit_value(
                digits[2 * i + 1],
            )->Some_0) as u8,
    )
}

/// What is said of text that is not `width` bytes in hexadecimal.
pub open spec fn width_error(what: Seq<char>, width: nat) -> Seq<char> {
    what + " must be "@ + decimal(width) + " bytes, i.e. "@ + decimal(2 * width)
        + " lowercase hex characters"@
}

/// What is said of text with a stray byte.
pub open spec fn stray_error(byte: u8) -> Seq<char> {
    "hex ids use 0-9 and a-f, but the value contains "@ + debug_of_char(byte as char)
}

/// How std shows a character for debugging, as `format!("{:?}", ..)` writes it:
/// quoted, and escaped where it is not printable.
pub uninterp spec fn debug_of_char(c: char) -> Seq<char>;

/// `format!("{:?}", c)`: how `char`'s `Debug` shows the character. A function
/// of the character alone.
#[verifier::external_body]
fn debug_char(c: char) -> (text: String)
    ensures
        text@ == debug_of_char(c),
{
    format!("{:?}", c)
}

/// How std shows a string for debugging, as `format!("{:?}", ..)` writes it:
/// quoted, and escaped where it is not printable.
pub uninterp spec fn debug_of_text(text: Seq<char>) -> Seq<char>;

/// `format!("{:?}", text)`: how `str`'s `Debug` shows the string. A function of
/// its characters alone.
#[verifier::external_body]
pub(crate) fn debug_text(text: &str) -> (shown: String)
    ensures
        shown@ == debug_of_text(text@),
{
    format!("{:?}", text)
}

/// The value of a lower-case hexadecimal digit.
pub fn hex_value(byte: u8) -> (value: Result<u8, String>)
    ensures
        match value {
            Ok(value) => hex_digit_value(byte) == Some(value) && value < 16,
            Err(error) => hex_digit_value(byte) is None && error@ == stray_error(byte),
        },
{
    if 48 <= byte && byte <= 57 {
        Ok(byte - 48)
    } else if 97 <= byte && byte <= 102 {
        Ok(byte - 87)
    } else {
        let mut error = "hex ids use 0-9 and a-f, but the value contains ".to_owned();
        error.append(debug_char(byte as char).as_str());
        Err(error)
    }
}

/// The bytes that a text is in lower-case hexadecimal, or what is said of it
/// where it is not `width` of them. `what` names them.
pub open spec fn hex_in(text: Seq<char>, what: Seq<char>, width: nat) -> Result<
    Seq<u8>,
    Seq<char>,
> {
    let digits = bytes_of_text(text);
    if digits.len() != 2 * width {
        Err(width_error(what, width))
    } else {
        match first_stray(digits) {
            Some(byte) => Err(stray_error(byte)),
            None => Ok(hex_bytes(digits)),
        }
    }
}

/// Reads `width` bytes of lower-case hexadecimal. `what` names them in errors.
pub fn parse_hex(text: &str, what: &str, width: usize) -> (parsed: Result<Vec<u8>, String>)
    requires
        2 * width <= usize::MAX,
    ensures
        match parsed {
            Ok(bytes) => hex_in(text@, what@, width as nat) == Ok::<Seq<u8>, Seq<char>>(bytes@)
                && bytes@.len() == width,
            Err(error) => hex_in(text@, what@, width as nat) == Err::<Seq<u8>, Seq<char>>(error@),
        },
{
    let digits = text.as_bytes();
    if digits.len() != 2 * width {
        let mut error = what.to_owned();
        error.append(" must be ");
        push_decimal(&mut error, width as u64);
        error.append(" bytes, i.e. ");
        push_decimal(&mut error, (2 * width) as u64);
        error.append(" lowercase hex characters");
        return Err(error);
    }
    let mut bytes: Vec<u8> = Vec::new();
    let mut i: usize = 0;
    while i < width
        invariant
            i <= width,
            digits@ == bytes_of_text(text@),
            digits@.len() == 2 * width,
            2 * width <= usize::MAX,
            first_stray(digits@.take(2 * i)) is None,
            bytes@ == hex_bytes(digits@.take(2 * i)),
        decreases width - i,
    {
        assert(digits@.take(2 * i + 1).drop_last() =~= digits@.take(2 * i));
        assert(digits@.take(2 * i + 2).drop_last() =~= digits@.take(2 * i + 1));
        let high: u8 = match hex_value(digits[2 * i]) {
            Ok(value) => value,
            Err(error) => {
                proof {
                    first_stray_stays(digits@, 2 * i + 1);
                }
                return Err(error);
            },
        };
        let low: u8 = match hex_value(digits[2 * i + 1]) {
            Ok(value) => value,
            Err(error) => {
                proof {
                    first_stray_stays(digits@, 2 * i + 2);
                }
                return Err(error);
            },
        };
        bytes.push(high * 16 + low);
        assert(bytes@ =~= hex_bytes(digits@.take(2 * i + 2)));
        i += 1;
    }
    assert(digits@.take(2 * i) =~= digits@);
    Ok(bytes)
}

proof fn first_stray_stays(digits: Seq<u8>, count: int)
    requires
        0 <= count <= digits.len(),
        first_stray(digits.take(count)) is Some,
    ensures
        first_stray(digits) == first_stray(digits.take(count)),
    decreases digits.len() - count,
{
    if count < digits.len() {
        assert(digits.take(count + 1).drop_last() =~= digits.take(count));
        first_stray_stays(digits, count + 1);
    } else {
        assert(digits.take(count) =~= digits);
    }
}

/// Whether two texts are the same.
pub fn same(a: &str, b: &str) -> (same: bool)
    ensures
        same == (a@ == b@),
{
    a.to_owned() == b.to_owned()
}

/// What stands before the first of these bytes, or all where there is none.
pub open spec fn before(text: Seq<u8>, byte: u8) -> Seq<u8>
    decreases text.len(),
{
    if text.len() == 0 || text[0] == byte {
        Seq::empty()
    } else {
        seq![text[0]] + before(text.skip(1), byte)
    }
}

/// Where the first of these bytes stands, or the end.
pub fn find(text: &[u8], byte: u8) -> (at: usize)
    ensures
        at <= text@.len(),
        before(text@, byte) == text@.take(at as int),
{
    let mut at: usize = 0;
    assert(text@.skip(0) =~= text@);
    assert(text@.take(0) + before(text@, byte) =~= before(text@, byte));
    while at < text.len() && text[at] != byte
        invariant
            at <= text@.len(),
            before(text@, byte) == text@.take(at as int) + before(text@.skip(at as int), byte),
        decreases text@.len() - at,
    {
        let ghost rest = text@.skip(at as int);
        assert(rest.skip(1) =~= text@.skip(at + 1));
        assert(text@.take(at as int) + (seq![rest[0]] + before(rest.skip(1), byte))
            =~= text@.take(at + 1) + before(text@.skip(at + 1), byte));
        at += 1;
    }
    assert(before(text@.skip(at as int), byte) =~= Seq::<u8>::empty());
    assert(text@.take(at as int) + Seq::<u8>::empty() =~= text@.take(at as int));
    at
}

/// Whether a byte is whitespace in ASCII.
pub open spec fn is_space(byte: u8) -> bool {
    9 <= byte <= 13 || byte == 32
}

/// Text without the whitespace around it.
pub open spec fn trimmed(text: Seq<u8>) -> Seq<u8>
    decreases text.len(),
{
    if text.len() > 0 && is_space(text[0]) {
        trimmed(text.skip(1))
    } else if text.len() > 0 && is_space(text.last()) {
        trimmed(text.drop_last())
    } else {
        text
    }
}

fn space(byte: u8) -> (space: bool)
    ensures
        space == is_space(byte),
{
    (9 <= byte && byte <= 13) || byte == 32
}

/// The range that is left of a range without the whitespace around it.
pub fn trim(text: &[u8], from: usize, to: usize) -> (range: (usize, usize))
    requires
        from <= to <= text@.len(),
    ensures
        from <= range.0 <= range.1 <= to,
        text@.subrange(range.0 as int, range.1 as int) == trimmed(
            text@.subrange(from as int, to as int),
        ),
{
    let mut start: usize = from;
    let mut end: usize = to;
    while start < end && space(text[start])
        invariant
            from <= start <= end == to <= text@.len(),
            trimmed(text@.subrange(start as int, end as int)) == trimmed(
                text@.subrange(from as int, to as int),
            ),
        decreases end - start,
    {
        assert(text@.subrange(start as int, end as int).skip(1) =~= text@.subrange(
            start + 1,
            end as int,
        ));
        start += 1;
    }
    while start < end && space(text[end - 1])
        invariant
            from <= start <= end <= to <= text@.len(),
            start < end ==> !is_space(text@[start as int]),
            trimmed(text@.subrange(start as int, end as int)) == trimmed(
                text@.subrange(from as int, to as int),
            ),
        decreases end - start,
    {
        assert(text@.subrange(start as int, end as int).drop_last() =~= text@.subrange(
            start as int,
            end - 1,
        ));
        end -= 1;
    }
    (start, end)
}

/// A byte's lower case, in ASCII.
pub open spec fn lowered(byte: u8) -> u8 {
    if 65 <= byte <= 90 {
        (byte + 32) as u8
    } else {
        byte
    }
}

/// A byte's lower case, in ASCII.
pub fn lower(byte: u8) -> (low: u8)
    ensures
        low == lowered(byte),
{
    if 65 <= byte && byte <= 90 {
        byte + 32
    } else {
        byte
    }
}

/// Whether two texts differ at most in the case of ASCII letters.
pub open spec fn same_ignoring_case(a: Seq<u8>, b: Seq<u8>) -> bool {
    a.len() == b.len() && forall|i: int| 0 <= i < a.len() ==> lowered(#[trigger] a[i]) == lowered(b[i])
}

/// Whether a range of a text differs from another text at most in the case of
/// ASCII letters.
pub fn equal_ignoring_case(text: &[u8], from: usize, to: usize, other: &[u8]) -> (equal: bool)
    requires
        from <= to <= text@.len(),
    ensures
        equal == same_ignoring_case(text@.subrange(from as int, to as int), other@),
{
    let ghost part = text@.subrange(from as int, to as int);
    if to - from != other.len() {
        return false;
    }
    let mut i: usize = 0;
    while i < other.len()
        invariant
            from <= to <= text@.len(),
            to - from == other@.len(),
            part == text@.subrange(from as int, to as int),
            forall|j: int| 0 <= j < i ==> lowered(#[trigger] part[j]) == lowered(other@[j]),
        decreases other@.len() - i,
    {
        if lower(text[from + i]) != lower(other[i]) {
            assert(lowered(part[i as int]) != lowered(other@[i as int]));
            return false;
        }
        i += 1;
    }
    true
}

/// The number that decimal digits stand for; none where there is another byte.
pub open spec fn digits_value(digits: Seq<u8>) -> Option<nat>
    decreases digits.len(),
{
    if digits.len() == 0 {
        Some(0)
    } else {
        match digits_value(digits.drop_last()) {
            Some(value) => if 48 <= digits.last() <= 57 {
                Some((value * 10 + (digits.last() - 48)) as nat)
            } else {
                None
            },
            None => None,
        }
    }
}

/// The number of 64 bits that a text is: decimal digits, at least one, which a
/// plus sign may precede.
pub open spec fn unsigned_in(text: Seq<u8>) -> Option<u64> {
    let digits = if text.len() > 0 && text[0] == 0x2b {
        text.skip(1)
    } else {
        text
    };
    match digits_value(digits) {
        Some(value) => if digits.len() > 0 && value <= u64::MAX {
            Some(value as u64)
        } else {
            None
        },
        None => None,
    }
}

proof fn digits_value_grows(digits: Seq<u8>, count: int)
    requires
        0 <= count <= digits.len(),
    ensures
        digits_value(digits) is Some ==> digits_value(digits.take(count)) is Some && digits_value(
            digits.take(count),
        )->Some_0 <= digits_value(digits)->Some_0,
    decreases digits.len() - count,
{
    if count < digits.len() {
        assert(digits.take(count + 1).drop_last() =~= digits.take(count));
        digits_value_grows(digits, count + 1);
    } else {
        assert(digits.take(count) =~= digits);
    }
}

/// The number of 64 bits that a text is, if it is one.
pub fn parse_unsigned(text: &[u8]) -> (number: Option<u64>)
    ensures
        number == unsigned_in(text@),
{
    let start: usize = if text.len() > 0 && text[0] == 0x2b {
        1
    } else {
        0
    };
    let ghost digits = text@.skip(start as int);
    assert(start == 0 ==> digits =~= text@);
    if start == text.len() {
        return None;
    }
    let mut value: u64 = 0;
    let mut i: usize = start;
    while i < text.len()
        invariant
            start <= i <= text@.len(),
            start < text@.len(),
            digits == text@.skip(start as int),
            start == if text@.len() > 0 && text@[0] == 0x2b {
                1int
            } else {
                0
            },
            start == 0 ==> digits == text@,
            digits_value(digits.take(i - start)) == Some(value as nat),
        decreases text@.len() - i,
    {
        let byte: u8 = text[i];
        assert(digits.take(i + 1 - start).drop_last() =~= digits.take(i - start));
        assert(digits.take(i + 1 - start).last() == byte);
        proof {
            digits_value_grows(digits, i + 1 - start);
        }
        if byte < 48 || byte > 57 {
            return None;
        }
        value = match value.checked_mul(10) {
            Some(value) => match value.checked_add((byte - 48) as u64) {
                Some(value) => value,
                None => {
                    return None;
                },
            },
            None => {
                return None;
            },
        };
        i += 1;
    }
    assert(digits.take(i - start) =~= digits);
    Some(value)
}

proof fn hex_text_is_ascii(bytes: Seq<u8>)
    ensures
        vstd::utf8::is_ascii_chars(hex_text(bytes)),
        hex_text(bytes).len() == 2 * bytes.len(),
        forall|i: int|
            0 <= i < bytes.len() ==> #[trigger] hex_text(bytes)[2 * i] == hex_char(
                bytes[i] as int / 16,
            ),
        forall|i: int|
            0 <= i < bytes.len() ==> #[trigger] hex_text(bytes)[2 * i + 1] == hex_char(
                bytes[i] as int % 16,
            ),
    decreases bytes.len(),
{
    if bytes.len() > 0 {
        hex_text_is_ascii(bytes.drop_last());
        let text = hex_text(bytes);
        let before = hex_text(bytes.drop_last());
        assert forall|i: int| 0 <= i < bytes.len() implies #[trigger] text[2 * i] == hex_char(
            bytes[i] as int / 16,
        ) by {
            if i < bytes.len() - 1 {
                assert(before[2 * i] == hex_char(bytes.drop_last()[i] as int / 16));
            }
        }
        assert forall|i: int| 0 <= i < bytes.len() implies #[trigger] text[2 * i + 1] == hex_char(
            bytes[i] as int % 16,
        ) by {
            if i < bytes.len() - 1 {
                assert(before[2 * i + 1] == hex_char(bytes.drop_last()[i] as int % 16));
            }
        }
    }
}

proof fn no_stray(digits: Seq<u8>)
    requires
        forall|i: int| 0 <= i < digits.len() ==> hex_digit_value(#[trigger] digits[i]) is Some,
    ensures
        first_stray(digits) is None,
    decreases digits.len(),
{
    if digits.len() > 0 {
        no_stray(digits.drop_last());
    }
}

/// Reading hexadecimal gives back the bytes that were written.
pub proof fn reading_hex_undoes_writing(bytes: Seq<u8>, what: Seq<char>)
    ensures
        hex_in(hex_text(bytes), what, bytes.len()) == Ok::<Seq<u8>, Seq<char>>(bytes),
{
    let text = hex_text(bytes);
    let digits = bytes_of_text(text);
    hex_text_is_ascii(bytes);
    vstd::utf8::is_ascii_chars_encode_utf8(text);
    assert forall|i: int| 0 <= i < bytes.len() implies hex_digit_value(#[trigger] digits[2 * i])
        == Some((bytes[i] / 16) as u8) by {
        assert(text[2 * i] == hex_char(bytes[i] as int / 16));
    }
    assert forall|i: int| 0 <= i < bytes.len() implies hex_digit_value(
        #[trigger] digits[2 * i + 1],
    ) == Some((bytes[i] % 16) as u8) by {
        assert(text[2 * i + 1] == hex_char(bytes[i] as int % 16));
    }
    assert forall|i: int| 0 <= i < digits.len() implies hex_digit_value(#[trigger] digits[i])
        is Some by {
        if i % 2 == 0 {
            assert(digits[2 * (i / 2)] == digits[i]);
        } else {
            assert(digits[2 * (i / 2) + 1] == digits[i]);
        }
    }
    no_stray(digits);
    assert(hex_bytes(digits) =~= bytes);
}

proof fn none_is_stray(digits: Seq<u8>, index: int)
    requires
        first_stray(digits) is None,
        0 <= index < digits.len(),
    ensures
        hex_digit_value(digits[index]) is Some,
    decreases digits.len(),
{
    if index < digits.len() - 1 {
        none_is_stray(digits.drop_last(), index);
    }
}

/// Writing hexadecimal gives back the text that was read.
pub proof fn writing_hex_undoes_reading(text: Seq<char>, what: Seq<char>, width: nat)
    requires
        hex_in(text, what, width) is Ok,
    ensures
        hex_text(hex_in(text, what, width)->Ok_0) == text,
{
    let digits = bytes_of_text(text);
    let bytes = hex_bytes(digits);
    let written = hex_text(bytes);
    hex_text_is_ascii(bytes);
    vstd::utf8::is_ascii_chars_encode_utf8(written);
    assert forall|i: int| 0 <= i < digits.len() implies bytes_of_text(written)[i]
        == #[trigger] digits[i] by {
        let at = i / 2;
        none_is_stray(digits, 2 * at);
        none_is_stray(digits, 2 * at + 1);
        assert(written[2 * at] == hex_char(bytes[at] as int / 16));
        assert(written[2 * at + 1] == hex_char(bytes[at] as int % 16));
    }
    assert(bytes_of_text(written) =~= digits);
    vstd::utf8::encode_utf8_decode_utf8(written);
    vstd::utf8::encode_utf8_decode_utf8(text);
}

/// The sixteen hexadecimal digits, each at its value.
pub open spec fn hex_digits() -> Seq<char> {
    "0123456789abcdef"@
}

proof fn the_hex_digits()
    ensures
        hex_digits() == seq![
            '0', '1', '2', '3', '4', '5', '6', '7', '8', '9', 'a', 'b', 'c', 'd', 'e', 'f',
        ],
{
    reveal_strlit("0123456789abcdef");
    assert(hex_digits() =~= seq![
        '0', '1', '2', '3', '4', '5', '6', '7', '8', '9', 'a', 'b', 'c', 'd', 'e', 'f',
    ]);
}

/// The hexadecimal digits are written and read by their values: the one at index
/// `value` of `0123456789abcdef` is written for `value`, and read as it.
pub proof fn a_hexadecimal_digit_has_its_value(value: int)
    requires
        0 <= value < 16,
    ensures
        hex_digits().len() == 16,
        hex_char(value) == hex_digits()[value],
        hex_digit_value(hex_digits()[value] as u8) == Some(value as u8),
        (hex_digits()[value] as u8) as char == hex_digits()[value],
{
    the_hex_digits();
}

/// A byte is read as the hexadecimal digit that it is, and a byte that is none is
/// named.
pub proof fn a_byte_is_read_as_the_digit_it_is(byte: u8, value: Result<u8, String>)
    requires
        call_ensures(hex_value, (byte,), value),
    ensures
        value matches Ok(value) ==> value < 16 && hex_digits()[value as int] == byte as char,
        value matches Err(error) ==> {
            &&& forall|other: int| 0 <= other < 16 ==> #[trigger] hex_digits()[other] != byte as char
            &&& error@ == "hex ids use 0-9 and a-f, but the value contains "@ + debug_of_char(
                byte as char,
            )
        },
{
    the_hex_digits();
}

/// Whether a text spells bytes in hexadecimal: two digits for each, the high one
/// first.
pub open spec fn spells(text: Seq<char>, bytes: Seq<u8>) -> bool {
    &&& text.len() == 2 * bytes.len()
    &&& forall|i: int|
        0 <= i < bytes.len() ==> {
            &&& text[2 * i] == hex_digits()[#[trigger] bytes[i] as int / 16]
            &&& text[2 * i + 1] == hex_digits()[bytes[i] as int % 16]
        }
}

/// Bytes in hexadecimal are spelled by their digits.
pub proof fn hexadecimal_spells_its_bytes(bytes: Seq<u8>)
    ensures
        spells(hex_text(bytes), bytes),
{
    hex_text_is_ascii(bytes);
    assert forall|i: int| 0 <= i < bytes.len() implies {
        &&& hex_text(bytes)[2 * i] == hex_digits()[#[trigger] bytes[i] as int / 16]
        &&& hex_text(bytes)[2 * i + 1] == hex_digits()[bytes[i] as int % 16]
    } by {
        a_hexadecimal_digit_has_its_value(bytes[i] as int / 16);
        a_hexadecimal_digit_has_its_value(bytes[i] as int % 16);
    }
}

/// Bytes are spelled by one text alone, and it is read as them.
pub proof fn only_one_text_spells(text: Seq<char>, bytes: Seq<u8>, what: Seq<char>)
    requires
        spells(text, bytes),
    ensures
        text == hex_text(bytes),
        hex_in(text, what, bytes.len()) == Ok::<Seq<u8>, Seq<char>>(bytes),
{
    hexadecimal_spells_its_bytes(bytes);
    reading_hex_undoes_writing(bytes, what);
    assert forall|i: int| 0 <= i < text.len() implies text[i] == hex_text(bytes)[i] by {
        let at = i / 2;
        assert(text[2 * at] == hex_digits()[bytes[at] as int / 16]);
        assert(hex_text(bytes)[2 * at] == hex_digits()[bytes[at] as int / 16]);
    }
    assert(text =~= hex_text(bytes));
}

/// Every byte is written as its two hexadecimal digits, the high one first.
pub proof fn bytes_are_written_by_their_digits(bytes: &[u8], written: String)
    requires
        call_ensures(hex, (bytes,), written),
    ensures
        written@.len() == 2 * bytes@.len(),
        forall|i: int|
            0 <= i < bytes@.len() ==> {
                &&& written@[2 * i] == hex_digits()[#[trigger] bytes@[i] as int / 16]
                &&& written@[2 * i + 1] == hex_digits()[bytes@[i] as int % 16]
            },
{
    hex_text_is_ascii(bytes@);
    assert forall|i: int| 0 <= i < bytes@.len() implies {
        &&& written@[2 * i] == hex_digits()[#[trigger] bytes@[i] as int / 16]
        &&& written@[2 * i + 1] == hex_digits()[bytes@[i] as int % 16]
    } by {
        a_hexadecimal_digit_has_its_value(bytes@[i] as int / 16);
        a_hexadecimal_digit_has_its_value(bytes@[i] as int % 16);
    }
}

/// Text is read as hexadecimal exactly where it is two digits for each byte, and
/// then as the bytes of those digits.
pub proof fn text_is_read_by_its_digits(
    text: &str,
    what: &str,
    width: usize,
    parsed: Result<Vec<u8>, String>,
)
    requires
        call_ensures(parse_hex, (text, what, width), parsed),
    ensures
        parsed is Ok <==> text@.len() == 2 * width && forall|i: int|
            0 <= i < text@.len() ==> hex_digits().contains(#[trigger] text@[i]),
        parsed matches Ok(bytes) ==> {
            &&& bytes@.len() == width
            &&& forall|i: int|
                0 <= i < width ==> {
                    &&& text@[2 * i] == hex_digits()[#[trigger] bytes@[i] as int / 16]
                    &&& text@[2 * i + 1] == hex_digits()[bytes@[i] as int % 16]
                }
        },
{
    the_hex_digits();
    let digits = bytes_of_text(text@);
    if let Ok(bytes) = parsed {
        writing_hex_undoes_reading(text@, what@, width as nat);
        hex_text_is_ascii(bytes@);
        assert forall|i: int| 0 <= i < width implies {
            &&& text@[2 * i] == hex_digits()[#[trigger] bytes@[i] as int / 16]
            &&& text@[2 * i + 1] == hex_digits()[bytes@[i] as int % 16]
        } by {
            a_hexadecimal_digit_has_its_value(bytes@[i] as int / 16);
            a_hexadecimal_digit_has_its_value(bytes@[i] as int % 16);
        }
        assert forall|i: int| 0 <= i < text@.len() implies hex_digits().contains(
            #[trigger] text@[i],
        ) by {
            let at = i / 2;
            assert(text@[2 * at] == hex_digits()[bytes@[at] as int / 16]);
            assert(text@[2 * at + 1] == hex_digits()[bytes@[at] as int % 16]);
        }
    } else if text@.len() == 2 * width && forall|i: int|
        0 <= i < text@.len() ==> hex_digits().contains(#[trigger] text@[i]) {
        assert(vstd::utf8::is_ascii_chars(text@)) by {
            assert forall|i: int| 0 <= i < text@.len() implies (#[trigger] text@[i]) as int
                <= 127 by {
                assert(hex_digits().contains(text@[i]));
            }
        }
        vstd::utf8::is_ascii_chars_encode_utf8(text@);
        assert forall|i: int| 0 <= i < digits.len() implies hex_digit_value(#[trigger] digits[i])
            is Some by {
            assert(hex_digits().contains(text@[i]));
            let value = choose|value: int|
                0 <= value < hex_digits().len() && hex_digits()[value] == text@[i];
            a_hexadecimal_digit_has_its_value(value);
        }
        no_stray(digits);
    }
}

/// Text that is not hexadecimal is said to be too long or too short where it is,
/// by its bytes; and otherwise the first of its bytes that is no digit is named.
pub proof fn what_is_not_hexadecimal_is_named(
    text: &str,
    what: &str,
    width: usize,
    parsed: Result<Vec<u8>, String>,
    stray: int,
)
    requires
        call_ensures(parse_hex, (text, what, width), parsed),
    ensures
        vstd::utf8::encode_utf8(text@).len() != 2 * width ==> (parsed matches Err(error) && error@
            == what@ + " must be "@ + decimal(width as nat) + " bytes, i.e. "@ + decimal(
            2 * width as nat,
        ) + " lowercase hex characters"@),
        vstd::utf8::encode_utf8(text@).len() == 2 * width && 0 <= stray < 2 * width
            && !hex_digits().contains(vstd::utf8::encode_utf8(text@)[stray] as char) && (forall|
            i: int,
        |
            0 <= i < stray ==> hex_digits().contains(
                #[trigger] vstd::utf8::encode_utf8(text@)[i] as char,
            )) ==> (parsed matches Err(error) && error@
            == "hex ids use 0-9 and a-f, but the value contains "@ + debug_of_char(
            vstd::utf8::encode_utf8(text@)[stray] as char,
        )),
{
    the_hex_digits();
    let digits = bytes_of_text(text@);
    if digits.len() == 2 * width && 0 <= stray < 2 * width && !hex_digits().contains(
        digits[stray] as char,
    ) && (forall|i: int|
        0 <= i < stray ==> hex_digits().contains(#[trigger] digits[i] as char)) {
        let before = digits.take(stray);
        assert forall|i: int| 0 <= i < before.len() implies hex_digit_value(#[trigger] before[i])
            is Some by {
            assert(hex_digits().contains(digits[i] as char));
        }
        no_stray(before);
        assert(digits.take(stray + 1).drop_last() =~= before);
        assert(hex_digit_value(digits[stray]) is None) by {
            if let Some(value) = hex_digit_value(digits[stray]) {
                assert(hex_digits()[value as int] == digits[stray] as char);
            }
        }
        first_stray_stays(digits, stray + 1);
    }
}

/// The number that decimal digits stand for, each by its place.
pub open spec fn numeral(digits: Seq<char>) -> int
    decreases digits.len(),
{
    if digits.len() == 0 {
        0
    } else {
        10 * numeral(digits.drop_last()) + (digits.last() as int - '0' as int)
    }
}

/// Whether every character is a decimal digit.
pub open spec fn all_decimal(digits: Seq<char>) -> bool {
    forall|i: int| 0 <= i < digits.len() ==> '0' <= #[trigger] digits[i] <= '9'
}

proof fn a_digit_is_written(digit: int)
    requires
        0 <= digit < 10,
    ensures
        digit_text(digit).len() == 1,
        digit_text(digit)[0] as int == '0' as int + digit,
{
    reveal_strlit("0");
    reveal_strlit("1");
    reveal_strlit("2");
    reveal_strlit("3");
    reveal_strlit("4");
    reveal_strlit("5");
    reveal_strlit("6");
    reveal_strlit("7");
    reveal_strlit("8");
    reveal_strlit("9");
}

/// A number is written by its decimal digits: they stand for it, and none is a
/// leading zero.
pub proof fn a_number_is_written_by_its_digits(number: nat)
    ensures
        decimal(number).len() > 0,
        all_decimal(decimal(number)),
        numeral(decimal(number)) == number,
        decimal(number).len() > 1 ==> decimal(number)[0] != '0',
    decreases number,
{
    a_digit_is_written((number % 10) as int);
    if number < 10 {
        a_digit_is_written(number as int);
        assert(decimal(number).drop_last() =~= Seq::empty());
        assert(numeral(decimal(number).drop_last()) == 0);
    } else {
        a_number_is_written_by_its_digits(number / 10);
        let high = decimal(number / 10);
        assert(decimal(number).drop_last() =~= high);
        assert(decimal(number).last() == digit_text((number % 10) as int)[0]);
        assert(decimal(number)[0] == high[0]);
        if high.len() == 1 {
            assert(high.drop_last() =~= Seq::empty());
            assert(numeral(high.drop_last()) == 0);
            assert(high.last() == high[0]);
        }
    }
}

/// The number that the decimal digits of a text stand for, each by its place.
pub open spec fn numeral_of(digits: Seq<u8>) -> int
    decreases digits.len(),
{
    if digits.len() == 0 {
        0
    } else {
        10 * numeral_of(digits.drop_last()) + (digits.last() as int - '0' as int)
    }
}

/// Whether every byte is a decimal digit.
pub open spec fn all_digits(digits: Seq<u8>) -> bool {
    forall|i: int| 0 <= i < digits.len() ==> '0' <= #[trigger] digits[i] as char <= '9'
}

proof fn digits_have_their_value(digits: Seq<u8>)
    ensures
        digits_value(digits) is Some <==> all_digits(digits),
        digits_value(digits) matches Some(value) ==> value == numeral_of(digits),
    decreases digits.len(),
{
    if digits.len() > 0 {
        digits_have_their_value(digits.drop_last());
        if all_digits(digits) {
            assert forall|i: int| 0 <= i < digits.drop_last().len() implies '0'
                <= #[trigger] digits.drop_last()[i] as char <= '9' by {
                assert('0' <= digits[i] as char <= '9');
            }
            assert('0' <= digits[digits.len() - 1] as char <= '9');
        }
        if all_digits(digits.drop_last()) && 48 <= digits.last() <= 57 {
            assert forall|i: int| 0 <= i < digits.len() implies '0' <= #[trigger] digits[i] as char
                <= '9' by {
                if i < digits.len() - 1 {
                    assert('0' <= digits.drop_last()[i] as char <= '9');
                }
            }
        }
    }
}

/// The number in a text is the one that its decimal digits stand for, where it is
/// nothing else but a plus sign in front, there is at least one, and 64 bits hold
/// it.
pub proof fn a_text_is_its_number(text: Seq<u8>)
    ensures
        ({
            let digits = if text.len() > 0 && text[0] as char == '+' {
                text.skip(1)
            } else {
                text
            };
            &&& unsigned_in(text) is Some <==> digits.len() > 0 && all_digits(digits)
                && numeral_of(digits) <= u64::MAX
            &&& unsigned_in(text) matches Some(number) ==> number == numeral_of(digits)
        }),
{
    digits_have_their_value(text);
    digits_have_their_value(text.skip(1));
}

/// A text is read as a number exactly where it is decimal digits, at least one,
/// that stand for a number of 64 bits, and then as that number. A plus sign in
/// front is passed over.
pub proof fn a_number_is_read_by_its_digits(text: &[u8], number: Option<u64>)
    requires
        call_ensures(parse_unsigned, (text,), number),
    ensures
        ({
            let digits = if text@.len() > 0 && text@[0] as char == '+' {
                text@.skip(1)
            } else {
                text@
            };
            &&& number is Some <==> digits.len() > 0 && all_digits(digits) && numeral_of(digits)
                <= u64::MAX
            &&& number matches Some(number) ==> number == numeral_of(digits)
        }),
{
    digits_have_their_value(text@);
    digits_have_their_value(text@.skip(1));
}

proof fn numerals_agree(digits: Seq<char>, bytes: Seq<u8>)
    requires
        digits.len() == bytes.len(),
        forall|i: int| 0 <= i < digits.len() ==> #[trigger] digits[i] == bytes[i] as char,
    ensures
        numeral(digits) == numeral_of(bytes),
    decreases digits.len(),
{
    if digits.len() > 0 {
        assert(digits[digits.len() - 1] == bytes[bytes.len() - 1] as char);
        assert forall|i: int| 0 <= i < digits.drop_last().len() implies #[trigger] digits.drop_last()[i]
            == bytes.drop_last()[i] as char by {
            assert(digits[i] == bytes[i] as char);
        }
        numerals_agree(digits.drop_last(), bytes.drop_last());
    }
}

/// Reading a number gives back the one that was written.
pub proof fn reading_a_number_undoes_writing(number: u64)
    ensures
        unsigned_in(vstd::utf8::encode_utf8(decimal(number as nat))) == Some(number),
{
    let digits = decimal(number as nat);
    let bytes = vstd::utf8::encode_utf8(digits);
    a_number_is_written_by_its_digits(number as nat);
    assert(vstd::utf8::is_ascii_chars(digits)) by {
        assert forall|i: int| 0 <= i < digits.len() implies (#[trigger] digits[i]) as int
            <= 127 by {
            assert('0' <= digits[i] <= '9');
        }
    }
    vstd::utf8::is_ascii_chars_encode_utf8(digits);
    assert forall|i: int| 0 <= i < digits.len() implies #[trigger] digits[i] == bytes[i] as char by {
        assert('0' <= digits[i] <= '9');
    }
    assert forall|i: int| 0 <= i < bytes.len() implies '0' <= #[trigger] bytes[i] as char <= '9' by {
        assert(digits[i] == bytes[i] as char);
    }
    numerals_agree(digits, bytes);
    digits_have_their_value(bytes);
    assert(digits[0] == bytes[0] as char);
}

/// A byte is looked for from the front: none of those before the place that is
/// found is the one looked for, and the one there is, unless it is the end.
pub proof fn the_first_is_found(text: &[u8], byte: u8, at: usize)
    requires
        call_ensures(find, (text, byte), at),
    ensures
        at <= text@.len(),
        forall|i: int| 0 <= i < at ==> #[trigger] text@[i] != byte,
        at < text@.len() ==> text@[at as int] == byte,
{
    before_stops_at_the_first(text@, byte);
    assert forall|i: int| 0 <= i < at implies #[trigger] text@[i] != byte by {
        assert(before(text@, byte)[i] == text@[i]);
    }
}

proof fn before_stops_at_the_first(text: Seq<u8>, byte: u8)
    ensures
        before(text, byte).len() <= text.len(),
        forall|i: int| 0 <= i < before(text, byte).len() ==> #[trigger] before(text, byte)[i] != byte,
        before(text, byte).len() < text.len() ==> text[before(text, byte).len() as int] == byte,
    decreases text.len(),
{
    if text.len() > 0 && text[0] != byte {
        before_stops_at_the_first(text.skip(1), byte);
        let rest = before(text.skip(1), byte);
        assert forall|i: int| 0 <= i < before(text, byte).len() implies #[trigger] before(
            text,
            byte,
        )[i] != byte by {
            if i > 0 {
                assert(before(text, byte)[i] == rest[i - 1]);
            }
        }
    }
}

/// Whether a byte is a space, a tab, or another of the characters that end a line
/// or a page.
pub open spec fn is_blank(byte: u8) -> bool {
    " \t\n\u{b}\u{c}\r"@.contains(byte as char)
}

/// A blank is a space, or one of the five control characters from the tab on.
pub proof fn a_blank_is_a_space(byte: u8)
    ensures
        is_blank(byte) <==> is_space(byte),
        is_blank(byte) <==> byte == 32 || 9 <= byte <= 13,
{
    reveal_strlit(" \t\n\u{b}\u{c}\r");
    let blanks = " \t\n\u{b}\u{c}\r"@;
    assert(blanks.len() == 6);
    assert(blanks[0] as int == 32 && blanks[1] as int == 9 && blanks[2] as int == 10
        && blanks[3] as int == 11 && blanks[4] as int == 12 && blanks[5] as int == 13);
    if is_space(byte) {
        let at = if byte == 32 {
            0int
        } else {
            byte - 8
        };
        assert(blanks[at] == byte as char);
    }
    if is_blank(byte) {
        let at = choose|at: int| 0 <= at < blanks.len() && blanks[at] == byte as char;
        assert(blanks[at] as int == byte as int);
    }
}

proof fn trimming_takes_blanks(text: Seq<u8>) -> (range: (int, int))
    ensures
        0 <= range.0 <= range.1 <= text.len(),
        trimmed(text) == text.subrange(range.0, range.1),
        forall|i: int| 0 <= i < range.0 ==> is_space(#[trigger] text[i]),
        forall|i: int| range.1 <= i < text.len() ==> is_space(#[trigger] text[i]),
        range.0 < range.1 ==> !is_space(text[range.0]) && !is_space(text[range.1 - 1]),
    decreases text.len(),
{
    if text.len() > 0 && is_space(text[0]) {
        let rest = text.skip(1);
        let (start, end) = trimming_takes_blanks(rest);
        assert(rest.subrange(start, end) =~= text.subrange(start + 1, end + 1));
        assert forall|i: int| 0 <= i < start + 1 implies is_space(#[trigger] text[i]) by {
            if i > 0 {
                assert(rest[i - 1] == text[i]);
            }
        }
        assert forall|i: int| end + 1 <= i < text.len() implies is_space(#[trigger] text[i]) by {
            assert(rest[i - 1] == text[i]);
        }
        (start + 1, end + 1)
    } else if text.len() > 0 && is_space(text.last()) {
        let rest = text.drop_last();
        let (start, end) = trimming_takes_blanks(rest);
        assert(rest.subrange(start, end) =~= text.subrange(start, end));
        assert forall|i: int| 0 <= i < start implies is_space(#[trigger] text[i]) by {
            assert(rest[i] == text[i]);
        }
        assert forall|i: int| end <= i < text.len() implies is_space(#[trigger] text[i]) by {
            if i < rest.len() {
                assert(rest[i] == text[i]);
            }
        }
        (start, end)
    } else {
        assert(text.subrange(0, text.len() as int) =~= text);
        (0, text.len() as int)
    }
}

/// What is left of a text without the blanks around it is what stands between
/// them: it does not begin or end with one, and nothing else is gone.
pub proof fn only_blanks_are_trimmed(text: Seq<u8>) -> (range: (int, int))
    ensures
        0 <= range.0 <= range.1 <= text.len(),
        trimmed(text) == text.subrange(range.0, range.1),
        forall|i: int| 0 <= i < range.0 ==> is_blank(#[trigger] text[i]),
        forall|i: int| range.1 <= i < text.len() ==> is_blank(#[trigger] text[i]),
        range.0 < range.1 ==> !is_blank(text[range.0]) && !is_blank(text[range.1 - 1]),
{
    let (start, end) = trimming_takes_blanks(text);
    assert forall|byte: u8| #[trigger] is_blank(byte) <==> is_space(byte) by {
        a_blank_is_a_space(byte);
    }
    (start, end)
}

/// Whether two bytes are one letter, in whatever case, or are the same byte.
pub open spec fn one_letter(a: u8, b: u8) -> bool {
    ||| a == b
    ||| 'A' <= a as char <= 'Z' && b == a + 32
    ||| 'A' <= b as char <= 'Z' && a == b + 32
}

/// A capital letter's lower case is the small letter 32 places behind it; any
/// other byte is its own.
pub proof fn a_letter_has_its_lower_case(byte: u8, low: u8)
    requires
        call_ensures(lower, (byte,), low),
    ensures
        'A' <= byte as char <= 'Z' ==> low == byte + 32,
        !('A' <= byte as char <= 'Z') ==> low == byte,
{
}

/// Two texts are the same but for the case of letters exactly where they are
/// equally long and letter by letter the same.
pub proof fn case_alone_may_differ(a: Seq<u8>, b: Seq<u8>)
    ensures
        same_ignoring_case(a, b) <==> a.len() == b.len() && forall|i: int|
            0 <= i < a.len() ==> one_letter(#[trigger] a[i], b[i]),
{
    assert forall|x: u8, y: u8| #[trigger] one_letter(x, y) <==> lowered(x) == lowered(y) by {}
    if a.len() == b.len() && forall|i: int|
        0 <= i < a.len() ==> one_letter(#[trigger] a[i], b[i]) {
        assert forall|i: int| 0 <= i < a.len() implies lowered(#[trigger] a[i]) == lowered(
            b[i],
        ) by {
            assert(one_letter(a[i], b[i]));
        }
    }
}

}
