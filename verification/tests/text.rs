//! The decimal notation of integers, and the reading of values of the plain types.

use ibuilder::text::{
    index_to_string, int_to_string, nat_to_string, read_index, read_int, str_eq, IntError,
};
use ibuilder::value::{int_error_message, Plain, Value};

const TEXTS: [&str; 44] = [
    "",
    "0",
    "7",
    "-7",
    "+7",
    "+",
    "-",
    "+-7",
    "-+7",
    "--7",
    "++7",
    "007",
    "-007",
    "+007",
    "-0",
    "+0",
    " 7",
    "7 ",
    "7a",
    "a7",
    "1_000",
    "1.5",
    "127",
    "128",
    "-128",
    "-129",
    "255",
    "256",
    "32767",
    "32768",
    "-32768",
    "-32769",
    "65535",
    "65536",
    "2147483647",
    "2147483648",
    "-2147483648",
    "-2147483649",
    "4294967295",
    "4294967296",
    "9223372036854775807",
    "9223372036854775808",
    "١٢٣",
    "99999999999999999999999999999999999999999999x",
];

const MORE_TEXTS: [&str; 8] = [
    "-9223372036854775808",
    "-9223372036854775809",
    "18446744073709551615",
    "18446744073709551616",
    "000000000000000000000000000000000000000000000000000000000000000000000000000000042",
    "12é",
    "é12",
    "340282366920938463463374607431768211456",
];

fn all_texts() -> Vec<&'static str> {
    let mut texts: Vec<&'static str> = TEXTS.to_vec();
    texts.extend_from_slice(&MORE_TEXTS);
    texts
}

/// What the standard library makes of a text, in the shape that `Plain::read` gives.
fn expected<T: std::str::FromStr>(text: &str, make: fn(T) -> Value) -> Result<Value, String>
where
    T::Err: std::fmt::Display,
{
    match text.parse::<T>() {
        Ok(v) => Ok(make(v)),
        Err(e) => Err(format!("{}", e)),
    }
}

#[test]
fn integers_are_read_as_the_standard_library_reads_them() {
    for text in all_texts() {
        assert_eq!(Plain::I8.read(text), expected::<i8>(text, Value::I8), "i8 {:?}", text);
        assert_eq!(Plain::I16.read(text), expected::<i16>(text, Value::I16), "i16 {:?}", text);
        assert_eq!(Plain::I32.read(text), expected::<i32>(text, Value::I32), "i32 {:?}", text);
        assert_eq!(Plain::I64.read(text), expected::<i64>(text, Value::I64), "i64 {:?}", text);
        assert_eq!(Plain::U8.read(text), expected::<u8>(text, Value::U8), "u8 {:?}", text);
        assert_eq!(Plain::U16.read(text), expected::<u16>(text, Value::U16), "u16 {:?}", text);
        assert_eq!(Plain::U32.read(text), expected::<u32>(text, Value::U32), "u32 {:?}", text);
        assert_eq!(Plain::U64.read(text), expected::<u64>(text, Value::U64), "u64 {:?}", text);
        assert_eq!(
            Plain::Isize.read(text),
            expected::<isize>(text, Value::Isize),
            "isize {:?}",
            text
        );
        assert_eq!(
            Plain::Usize.read(text),
            expected::<usize>(text, Value::Usize),
            "usize {:?}",
            text
        );
    }
}

#[test]
fn characters_are_read_as_the_standard_library_reads_them() {
    for text in ["", "a", "ab", "é", "éa", " ", "\n", "🦀", "🦀🦀"] {
        assert_eq!(Plain::Char.read(text), expected::<char>(text, Value::Char), "{:?}", text);
    }
    assert_eq!(Plain::Char.read("x"), Ok(Value::Char('x')));
    assert_eq!(Plain::Char.read(""), Err("cannot parse char from empty string".to_string()));
    assert_eq!(Plain::Char.read("xy"), Err("too many characters in string".to_string()));
}

#[test]
fn strings_and_paths_are_taken_as_they_are() {
    for text in ["", "a", " padded ", "/usr/bin", "日本語", "42"] {
        assert_eq!(Plain::Str.read(text), Ok(Value::Str(text.to_string())));
        assert_eq!(Plain::Path.read(text), Ok(Value::Path(text.to_string())));
    }
}

#[test]
fn reading_fails_for_one_of_four_reasons() {
    assert_eq!(read_int("", true, -10, 10), Err(IntError::Empty));
    assert_eq!(read_int("x", true, -10, 10), Err(IntError::InvalidDigit));
    assert_eq!(read_int("-", true, -10, 10), Err(IntError::InvalidDigit));
    assert_eq!(read_int("-5", false, 0, 10), Err(IntError::InvalidDigit));
    assert_eq!(read_int("11", true, -10, 10), Err(IntError::PosOverflow));
    assert_eq!(read_int("-11", true, -10, 10), Err(IntError::NegOverflow));
    assert_eq!(read_int("10", true, -10, 10), Ok(10));
    assert_eq!(read_int("-10", true, -10, 10), Ok(-10));
    assert_eq!(read_int("+3", false, 0, 10), Ok(3));
    // what goes wrong first decides
    assert_eq!(read_int("11x", true, -10, 10), Err(IntError::PosOverflow));
    assert_eq!(read_int("1x1", true, -10, 10), Err(IntError::InvalidDigit));
}

#[test]
fn messages_are_those_of_the_standard_library() {
    assert_eq!(int_error_message(IntError::Empty), "".parse::<i32>().unwrap_err().to_string());
    assert_eq!(
        int_error_message(IntError::InvalidDigit),
        "x".parse::<i32>().unwrap_err().to_string()
    );
    assert_eq!(
        int_error_message(IntError::PosOverflow),
        "999".parse::<i8>().unwrap_err().to_string()
    );
    assert_eq!(
        int_error_message(IntError::NegOverflow),
        "-999".parse::<i8>().unwrap_err().to_string()
    );
    assert_eq!(int_error_message(IntError::Empty), "cannot parse integer from empty string");
    assert_eq!(int_error_message(IntError::InvalidDigit), "invalid digit found in string");
    assert_eq!(
        int_error_message(IntError::PosOverflow),
        "number too large to fit in target type"
    );
    assert_eq!(
        int_error_message(IntError::NegOverflow),
        "number too small to fit in target type"
    );
}

#[test]
fn integers_are_written_in_decimal_notation() {
    assert_eq!(int_to_string(0), "0");
    assert_eq!(int_to_string(7), "7");
    assert_eq!(int_to_string(-7), "-7");
    assert_eq!(int_to_string(10), "10");
    assert_eq!(int_to_string(1234567890), "1234567890");
    assert_eq!(int_to_string(i128::MAX), i128::MAX.to_string());
    assert_eq!(int_to_string(i128::MIN), i128::MIN.to_string());
    assert_eq!(nat_to_string(u128::MAX), u128::MAX.to_string());
    assert_eq!(nat_to_string(0), "0");
    assert_eq!(index_to_string(0), "0");
    assert_eq!(index_to_string(42), "42");
    assert_eq!(index_to_string(usize::MAX), usize::MAX.to_string());
    for v in [-1000i128, -101, -100, -99, -10, -9, -1, 0, 1, 9, 10, 11, 99, 100, 101, 1000] {
        assert_eq!(int_to_string(v), v.to_string());
    }
}

#[test]
fn values_are_shown_as_the_standard_library_shows_them() {
    assert_eq!(Value::I8(i8::MIN).text(), i8::MIN.to_string());
    assert_eq!(Value::I16(i16::MIN).text(), i16::MIN.to_string());
    assert_eq!(Value::I32(i32::MIN).text(), i32::MIN.to_string());
    assert_eq!(Value::I64(i64::MIN).text(), i64::MIN.to_string());
    assert_eq!(Value::Isize(isize::MIN).text(), isize::MIN.to_string());
    assert_eq!(Value::U8(u8::MAX).text(), u8::MAX.to_string());
    assert_eq!(Value::U16(u16::MAX).text(), u16::MAX.to_string());
    assert_eq!(Value::U32(u32::MAX).text(), u32::MAX.to_string());
    assert_eq!(Value::U64(u64::MAX).text(), u64::MAX.to_string());
    assert_eq!(Value::Usize(usize::MAX).text(), usize::MAX.to_string());
    assert_eq!(Value::Str("some text".to_string()).text(), "some text");
    assert_eq!(Value::Path("/some/path".to_string()).text(), "/some/path");
    assert_eq!(Value::Char('c').text(), "c");
    assert_eq!(Value::Char('é').text(), 'é'.to_string());
    assert_eq!(Value::Bool(true).text(), true.to_string());
    assert_eq!(Value::Bool(false).text(), false.to_string());
    assert_eq!(Value::List(vec![]).text(), "");
}

#[test]
fn indices_are_read_back_from_their_notation() {
    for i in [0usize, 1, 9, 10, 99, 100, 12345, usize::MAX - 1, usize::MAX] {
        assert_eq!(read_index(&index_to_string(i)), Some(i));
    }
    assert_eq!(read_index("01"), Some(1));
    assert_eq!(read_index("+1"), Some(1));
    assert_eq!(read_index("-1"), None);
    assert_eq!(read_index(""), None);
    assert_eq!(read_index("__new"), None);
    assert_eq!(read_index("99999999999999999999999999"), None);
}

#[test]
fn texts_are_compared_character_by_character() {
    assert!(str_eq("", ""));
    assert!(str_eq("__new", "__new"));
    assert!(!str_eq("__new", "__naw"));
    assert!(!str_eq("__new", "__ne"));
    assert!(!str_eq("a", ""));
    assert!(str_eq("日本語", "日本語"));
    assert!(!str_eq("日本語", "日本诰"));
}

#[test]
fn values_are_copied_whole() {
    let value = Value::Record(
        "R".to_string(),
        vec![
            ("a".to_string(), Value::List(vec![Value::I8(1), Value::Optional(None)])),
            (
                "b".to_string(),
                Value::Wrapper("W".to_string(), Box::new(Value::Boxed(Box::new(Value::Unit("U".to_string()))))),
            ),
            ("c".to_string(), Value::Optional(Some(Box::new(Value::Char('c'))))),
        ],
    );
    assert_eq!(value.copy(), value);
    assert_eq!(value.clone(), value);
    assert_eq!(value.plain(), None);
    assert_eq!(Value::Usize(3).plain(), Some(Plain::Usize));
    assert_eq!(Value::Path("p".to_string()).plain(), Some(Plain::Path));
    assert_eq!(Value::Bool(true).plain(), None);
}
