use text_wrench::operations::hex::{
    decode_hex_stream, hex_string, long_hex_string, parse_bytes, parse_pair, strip_whitespace,
    OperationFromHex, OperationToHex, OperationToLongHex,
};
use text_wrench::operations::text_operation::{TextOperation, TextOperationError};

#[test]
fn it_converts_bytes_to_string_to_utf8() {
    let bytes: Vec<u8> = String::from("414243").bytes().collect();

    let operation = OperationFromHex {};
    let result = operation.convert_bytes(&bytes);

    assert_eq!(result.unwrap().text_value.unwrap(), "ABC");
}

#[test]
fn it_converts_hex_string_to_utf8() {
    let operation = OperationFromHex {};

    let result = operation.convert("414243");
    assert_eq!(result.unwrap().text_value.unwrap(), "ABC");
}

#[test]
fn it_converts_hex_string_with_0x_to_utf8() {
    let operation = OperationFromHex {};

    let result = operation.convert("0x410x420x43");
    assert_eq!(result.unwrap().text_value.unwrap(), "ABC");
}

#[test]
fn it_converts_hex_string_with_whitespace_to_utf8() {
    let operation = OperationFromHex {};

    let result = operation.convert("0x41 42 \n 0x43");
    assert_eq!(result.unwrap().text_value.unwrap(), "ABC");
}

#[test]
fn it_ignores_additional_digits_converting_to_utf8() {
    let operation = OperationFromHex {};

    let result = operation.convert("0x41 424");
    assert_eq!(result.unwrap().text_value.unwrap(), "AB");
}

#[test]
fn it_converts_utf8_string_to_hex() {
    let operation = OperationToHex {};

    let result = operation.convert("ABC");
    assert_eq!(result.unwrap().text_value.unwrap(), "414243");
}

#[test]
fn it_converts_utf8_string_to_long_form_hex() {
    let operation = OperationToLongHex {};

    let result = operation.convert("ABC");
    assert_eq!(result.unwrap().text_value.unwrap(), "0x41 0x42 0x43");
}

#[test]
fn hex_encoders_write_two_digits_for_small_bytes() {
    assert_eq!(hex_string(&[0x00, 0x0a, 0x10, 0xff]), "000a10ff");
    assert_eq!(long_hex_string(&[0x00, 0x0a, 0x10, 0xff]), "0x00 0x0a 0x10 0xff");
    assert_eq!(long_hex_string(&[0x07]), "0x07");
    let result = (OperationToHex {}).convert("\n\t");
    assert_eq!(result.unwrap().text_value.unwrap(), "0a09");
    let result = (OperationToLongHex {}).convert("\n\t");
    assert_eq!(result.unwrap().text_value.unwrap(), "0x0a 0x09");
}

#[test]
fn hex_encoders_give_nothing_for_empty_input() {
    assert_eq!(hex_string(&[]), "");
    assert_eq!(long_hex_string(&[]), "");
    assert_eq!((OperationToHex {}).convert("").unwrap().text_value.unwrap(), "");
    assert_eq!((OperationToLongHex {}).convert("").unwrap().text_value.unwrap(), "");
    assert_eq!((OperationFromHex {}).convert("").unwrap().text_value.unwrap(), "");
    assert_eq!((OperationFromHex {}).convert(" \n\t ").unwrap().text_value.unwrap(), "");
}

#[test]
fn hex_round_trip_restores_the_text() {
    let texts = ["", "ABC", "hello, world\n", "h\u{e9}llo w\u{f6}rld", "\u{1f47e} \u{4e2d}\u{6587}", "\u{0}\u{1}\u{7f}"];
    for text in texts {
        let encoded = (OperationToHex {}).convert(text).unwrap().text_value.unwrap();
        assert_eq!(encoded.len(), 2 * text.len());
        let decoded = (OperationFromHex {}).convert(&encoded).unwrap().text_value.unwrap();
        assert_eq!(decoded, text);
    }
}

#[test]
fn hex_decode_reads_upper_case_digits() {
    let result = (OperationFromHex {}).convert("4A4b 0x4C");
    assert_eq!(result.unwrap().text_value.unwrap(), "JKL");
}

#[test]
fn hex_decode_ignores_unicode_white_space() {
    let result = (OperationFromHex {}).convert("41\u{2003}42\u{a0}43\u{3000}\u{2028}\u{85}");
    assert_eq!(result.unwrap().text_value.unwrap(), "ABC");
}

#[test]
fn hex_decode_rejects_a_character_outside_the_alphabet_at_its_offset() {
    match (OperationFromHex {}).convert("41 4g") {
        Err(TextOperationError::InvalidInputAtOffset(offset)) => assert_eq!(offset, 3),
        _ => panic!("expected an offset"),
    }
    match (OperationFromHex {}).convert("g") {
        Err(TextOperationError::InvalidInputAtOffset(offset)) => assert_eq!(offset, 0),
        _ => panic!("expected an offset"),
    }
    match (OperationFromHex {}).convert(" \n 0x41 \t 42 +") {
        Err(TextOperationError::InvalidInputAtOffset(offset)) => assert_eq!(offset, 6),
        _ => panic!("expected an offset"),
    }
    match (OperationFromHex {}).convert("\u{e9}") {
        Err(TextOperationError::InvalidInputAtOffset(offset)) => assert_eq!(offset, 0),
        _ => panic!("expected an offset"),
    }
}

#[test]
fn hex_decode_describes_a_pair_that_spells_no_byte() {
    let expected = u8::from_str_radix("x4", 16).unwrap_err().to_string();
    assert_eq!(expected, "invalid digit found in string");
    for input in ["x4", "4x4", "0x4x", "0xx4", "41x4"] {
        match (OperationFromHex {}).convert(input) {
            Err(TextOperationError::InvalidInputError(description)) => {
                assert_eq!(description, expected)
            }
            _ => panic!("expected a description"),
        }
    }
}

#[test]
fn hex_decode_reports_the_first_failure_in_reading_order() {
    match (OperationFromHex {}).convert("x4g") {
        Err(TextOperationError::InvalidInputError(_)) => {}
        _ => panic!("expected a description"),
    }
    match (OperationFromHex {}).convert("xg4") {
        Err(TextOperationError::InvalidInputAtOffset(offset)) => assert_eq!(offset, 1),
        _ => panic!("expected an offset"),
    }
}

#[test]
fn hex_decode_describes_bytes_that_are_no_utf8() {
    let expected = String::from_utf8(vec![0xff, 0x41]).unwrap_err().to_string();
    match (OperationFromHex {}).convert("ff41") {
        Err(TextOperationError::InvalidInputError(description)) => {
            assert_eq!(description, expected)
        }
        _ => panic!("expected a description"),
    }
}

#[test]
fn hex_decode_drops_a_dangling_digit_and_a_dangling_prefix() {
    assert_eq!((OperationFromHex {}).convert("4").unwrap().text_value.unwrap(), "");
    match (OperationFromHex {}).convert("0x") {
        Err(e) => assert_eq!(
            e.to_string(),
            "InvalidInputError(\"invalid digit found in string\")"
        ),
        Ok(_) => panic!("expected a description"),
    }
    assert_eq!((OperationFromHex {}).convert("41424").unwrap().text_value.unwrap(), "AB");
}

#[test]
fn parse_bytes_reads_groups_of_each_length() {
    let group = |text: &str| -> Vec<char> { text.chars().collect() };
    assert_eq!(parse_bytes(&group("")).unwrap(), Vec::<u8>::new());
    assert_eq!(parse_bytes(&group("4")).unwrap(), Vec::<u8>::new());
    assert_eq!(parse_bytes(&group("41")).unwrap(), vec![0x41]);
    assert_eq!(parse_bytes(&group("41f")).unwrap(), vec![0x41]);
    assert_eq!(parse_bytes(&group("41g")).unwrap(), vec![0x41]);
    assert_eq!(parse_bytes(&group("0x41")).unwrap(), vec![0x41]);
    assert_eq!(parse_bytes(&group("4142")).unwrap(), vec![0x41, 0x42]);
    assert_eq!(parse_bytes(&group("fFaB")).unwrap(), vec![0xff, 0xab]);
    assert_eq!(parse_bytes(&group("41424")).unwrap(), Vec::<u8>::new());
    assert!(parse_bytes(&group("x4")).is_err());
    assert!(parse_bytes(&group("0x4g")).is_err());
    assert!(parse_bytes(&group("41x2")).is_err());
}

#[test]
fn parse_pair_reads_base_sixteen_as_std_does() {
    let candidates = ['0', '9', 'a', 'f', 'A', 'F', 'g', 'x', '+', '-', ' ', '\u{e9}'];
    for first in candidates {
        for second in candidates {
            let text: String = [first, second].iter().collect();
            assert_eq!(parse_pair(first, second), u8::from_str_radix(&text, 16).ok());
        }
    }
    assert_eq!(parse_pair('4', '1'), Some(0x41));
    assert_eq!(parse_pair('+', 'a'), Some(0x0a));
    assert_eq!(parse_pair('x', '1'), None);
}

#[test]
fn strip_whitespace_keeps_the_rest_in_order() {
    let chars: Vec<char> = " a\tb \n c\u{3000}".chars().collect();
    assert_eq!(strip_whitespace(&chars), vec!['a', 'b', 'c']);
    let all: Vec<char> = (0u32..0x3100).filter_map(char::from_u32).collect();
    let expected: Vec<char> = all.iter().copied().filter(|c| !c.is_whitespace()).collect();
    assert_eq!(all.len() - expected.len(), 25);
    assert_eq!(strip_whitespace(&all), expected);
}

#[test]
fn decode_hex_stream_reads_mixed_groups() {
    let chars: Vec<char> = "0x41420x4344".chars().collect();
    assert_eq!(decode_hex_stream(&chars).unwrap(), vec![0x41, 0x42, 0x43, 0x44]);
    let chars: Vec<char> = "41 ".chars().collect();
    match decode_hex_stream(&chars) {
        Err(TextOperationError::InvalidInputAtOffset(offset)) => assert_eq!(offset, 2),
        _ => panic!("expected an offset"),
    }
}

#[test]
fn hex_operations_are_named() {
    assert_eq!((OperationToHex {}).get_id(), "TO_HEX");
    assert_eq!((OperationToHex {}).get_name(), "UTF-8 to Hexadecimal");
    assert_eq!((OperationToLongHex {}).get_id(), "TO_LONG_HEX");
    assert_eq!((OperationToLongHex {}).get_name(), "UTF-8 to Hexadecimal Long");
    assert_eq!((OperationFromHex {}).get_id(), "FROM_HEX");
    assert_eq!((OperationFromHex {}).get_name(), "Hexadecimal to UTF-8");
    assert_eq!((OperationFromHex {}).get_inverse(), None);
}
