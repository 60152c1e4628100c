use swift_mt940::cursor::Cursor;
use swift_mt940::text::{
    belongs, cut, cut_from, digit, digits_only, find_byte, read_number, read_segment, same_bytes,
    skip, skip_back, slice, slice_from, starts_with_at, strip_lead, trim, ByteClass,
};

#[test]
fn slicing_between_characters() {
    let text = "ab\u{e9}cd";
    assert_eq!(slice(text, 0, 2), Some("ab"));
    assert_eq!(slice(text, 2, 4), Some("\u{e9}"));
    assert_eq!(slice(text, 2, 3), None);
    assert_eq!(slice(text, 3, 4), None);
    assert_eq!(slice(text, 4, 6), Some("cd"));
    assert_eq!(slice(text, 4, 7), None);
    assert_eq!(slice(text, 5, 4), None);
    assert_eq!(slice(text, 6, 6), Some(""));
    assert_eq!(slice_from(text, 4), Some("cd"));
    assert_eq!(slice_from(text, 3), None);
    assert_eq!(slice_from(text, 6), Some(""));
    assert_eq!(slice_from(text, 7), None);
    assert_eq!(cut(text, 1, 4), "b\u{e9}");
    assert_eq!(cut_from(text, 2), "\u{e9}cd");
}

#[test]
fn searching_bytes() {
    assert!(same_bytes(b"abc", b"abc"));
    assert!(!same_bytes(b"abc", b"abd"));
    assert!(!same_bytes(b"abc", b"ab"));
    assert!(same_bytes(b"", b""));
    assert!(starts_with_at(b"xxNONREF", 2, b"NONREF"));
    assert!(!starts_with_at(b"xxNONREF", 3, b"NONREF"));
    assert!(!starts_with_at(b"xxNONRE", 2, b"NONREF"));
    assert!(starts_with_at(b"abc", 3, b""));
    assert_eq!(find_byte(b"a:b:c", 0, b':'), 1);
    assert_eq!(find_byte(b"a:b:c", 2, b':'), 3);
    assert_eq!(find_byte(b"a:b:c", 4, b':'), 5);
    assert_eq!(find_byte(b"", 0, b':'), 0);
    assert_eq!(read_segment("ab/cd/", b'/', 0), ("ab", 2));
    assert_eq!(read_segment("ab/cd/", b'/', 3), ("cd", 5));
    assert_eq!(read_segment("ab/cd/", b'/', 6), ("", 6));
}

#[test]
fn classes_of_bytes() {
    assert!(belongs(ByteClass::Whitespace, b' '));
    assert!(belongs(ByteClass::Whitespace, b'\t'));
    assert!(belongs(ByteClass::Whitespace, b'\r'));
    assert!(!belongs(ByteClass::Whitespace, b'a'));
    assert!(belongs(ByteClass::ColonOrReturn, b':'));
    assert!(belongs(ByteClass::ColonOrReturn, b'\r'));
    assert!(!belongs(ByteClass::ColonOrReturn, b'\n'));
    assert!(belongs(ByteClass::DigitOrComma, b','));
    assert!(belongs(ByteClass::DigitOrComma, b'7'));
    assert!(!belongs(ByteClass::DigitOrComma, b'.'));
    assert_eq!(skip(b"12,3S4", 0, ByteClass::DigitOrComma), 4);
    assert_eq!(skip(b"12,3", 1, ByteClass::DigitOrComma), 4);
    assert_eq!(skip(b"S12", 0, ByteClass::DigitOrComma), 0);
    assert_eq!(skip_back(b"ab  ", 0, 4, ByteClass::Whitespace), 2);
    assert_eq!(skip_back(b"    ", 1, 4, ByteClass::Whitespace), 1);
    assert_eq!(trim(":value:\r", ByteClass::ColonOrReturn), "value");
    assert_eq!(trim("::\r:", ByteClass::ColonOrReturn), "");
    assert_eq!(trim(":a:b\r\n", ByteClass::ColonOrReturn), "a:b\r\n");
    assert_eq!(trim(" \t x y \r\n", ByteClass::Whitespace), "x y");
    assert_eq!(trim("", ByteClass::Whitespace), "");
    assert_eq!(strip_lead("0012", b'0'), Some("012"));
    assert_eq!(strip_lead("12", b'0'), None);
    assert_eq!(strip_lead("", b'0'), None);
}

#[test]
fn reading_numbers() {
    assert!(digit(b'0'));
    assert!(digit(b'9'));
    assert!(!digit(b'/'));
    assert!(!digit(b':'));
    assert!(digits_only(b"a0123b", 1, 5));
    assert!(!digits_only(b"a0123b", 1, 6));
    assert!(digits_only(b"abc", 1, 1));
    assert_eq!(read_number(b"x0042y", 1, 5, 99), Some(42));
    assert_eq!(read_number(b"x0042y", 1, 5, 41), None);
    assert_eq!(read_number(b"x0042y", 1, 6, 99), None);
    assert_eq!(read_number(b"x0042y", 1, 1, 99), None);
    assert_eq!(read_number(b"18446744073709551615", 0, 20, u64::MAX), Some(u64::MAX));
    assert_eq!(read_number(b"18446744073709551616", 0, 20, u64::MAX), None);
    assert_eq!(read_number(b"99999999999999999999999", 0, 23, u64::MAX), None);
}

#[test]
fn cursor_steps() {
    let mut cursor = Cursor::new("0909DR55,00N\u{e9}");
    assert_eq!(cursor.remaining(), 14);
    assert_eq!(cursor.peek(4), Some("0909"));
    assert_eq!(cursor.position, 0);
    assert_eq!(cursor.take(4), Some("0909"));
    assert_eq!(cursor.position, 4);
    assert_eq!(cursor.take(2), Some("DR"));
    assert_eq!(cursor.take_class(ByteClass::DigitOrComma), "55,00");
    assert_eq!(cursor.position, 11);
    assert_eq!(cursor.take_class(ByteClass::DigitOrComma), "");
    assert_eq!(cursor.position, 11);
    assert_eq!(cursor.rest(), "N\u{e9}");
    assert_eq!(cursor.take(2), None);
    assert_eq!(cursor.position, 11);
    assert_eq!(cursor.take(4), None);
    assert_eq!(cursor.take(1), Some("N"));
    assert_eq!(cursor.take(2), Some("\u{e9}"));
    assert_eq!(cursor.remaining(), 0);
    assert_eq!(cursor.take(0), Some(""));
    assert_eq!(cursor.take(1), None);
    assert_eq!(cursor.rest(), "");
}
