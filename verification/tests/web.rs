use text_wrench::operations::text_operation::{TextOperation, TextOperationError};
use text_wrench::operations::web::{
    decoded_text, fits_base64, OperationDecodeBase64, OperationDecodeURL, OperationEncodeBase64,
    OperationEncodeBase64UrlSafe, OperationEncodeURL,
};

#[test]
fn it_encodes_utf8_to_base64_string() {
    let operation = OperationEncodeBase64 {};

    let result = operation.convert("av===> 1");
    assert_eq!(result.unwrap().text_value.unwrap(), "YXY9PT0+IDE=")
}

#[test]
fn it_encodes_utf8_to_url_safe_base64_string() {
    let operation = OperationEncodeBase64UrlSafe {};

    let result = operation.convert("av===> 1");
    assert_eq!(result.unwrap().text_value.unwrap(), "YXY9PT0-IDE=")
}

#[test]
fn it_decodes_base64_string_to_utf8() {
    let operation = OperationDecodeBase64 {};

    let result = operation.convert("YXY9PT0+IDE=");
    assert_eq!(result.unwrap().text_value.unwrap(), "av===> 1")
}

#[test]
fn it_decodes_url_safe_base64_string_to_utf8() {
    let operation = OperationDecodeBase64 {};

    let result = operation.convert("YXY9PT0-IDE=");
    assert_eq!(result.unwrap().text_value.unwrap(), "av===> 1")
}

#[test]
fn base64_decode_returns_the_message_where_neither_alphabet_fits() {
    let result = (OperationDecodeBase64 {}).convert("!!!!");
    assert_eq!(result.unwrap().text_value.unwrap(), "Invalid symbol 33, offset 0.");
    let result = (OperationDecodeBase64 {}).convert("YXY9PT0+IDE");
    assert_eq!(result.unwrap().text_value.unwrap(), "Invalid symbol 43, offset 7.");
    let result = (OperationDecodeBase64 {}).convert("YQ");
    assert_eq!(result.unwrap().text_value.unwrap(), "Invalid padding");
    let result = (OperationDecodeBase64 {}).convert("+-==");
    assert_eq!(result.unwrap().text_value.unwrap(), "Invalid symbol 43, offset 0.");
}

#[test]
fn base64_decode_gives_nothing_for_bytes_that_are_no_utf8() {
    let result = (OperationDecodeBase64 {}).convert("/w==");
    assert_eq!(result.unwrap().text_value.unwrap(), "");
    let result = (OperationDecodeBase64 {}).convert("_w==");
    assert_eq!(result.unwrap().text_value.unwrap(), "");
    let result = (OperationDecodeBase64 {}).convert("");
    assert_eq!(result.unwrap().text_value.unwrap(), "");
}

#[test]
fn decoded_text_takes_bytes_as_utf8_and_a_message_as_it_is() {
    assert_eq!(decoded_text(Ok(vec![0x41, 0xc3, 0xa9])), "A\u{e9}");
    assert_eq!(decoded_text(Ok(vec![0x41, 0xff])), "");
    assert_eq!(decoded_text(Ok(vec![])), "");
    assert_eq!(decoded_text(Err(String::from("Invalid padding"))), "Invalid padding");
}

#[test]
fn base64_encode_fits_every_length_that_can_occur() {
    assert!(fits_base64(0));
    assert!(fits_base64(1));
    assert!(fits_base64(usize::MAX / 4 * 3));
    assert!(fits_base64(usize::MAX / 4 * 3 - 1));
    assert!(!fits_base64(usize::MAX / 4 * 3 + 1));
    assert!(!fits_base64(usize::MAX));
    assert_eq!((OperationEncodeBase64 {}).convert("").unwrap().text_value.unwrap(), "");
    assert_eq!((OperationEncodeBase64 {}).convert("a").unwrap().text_value.unwrap(), "YQ==");
    assert_eq!((OperationEncodeBase64UrlSafe {}).convert("\u{ff}?").unwrap().text_value.unwrap(), "w78_");
    assert_eq!((OperationEncodeBase64 {}).convert("\u{ff}?").unwrap().text_value.unwrap(), "w78/");
}

#[test]
fn url_encode_keeps_unreserved_characters_only() {
    let operation = OperationEncodeURL {};
    assert_eq!(operation.convert("this that").unwrap().text_value.unwrap(), "this%20that");
    assert_eq!(
        operation.convert("\u{1f47e} Exterminate!").unwrap().text_value.unwrap(),
        "%F0%9F%91%BE%20Exterminate%21"
    );
    assert_eq!(
        operation.convert("AZaz09-._~").unwrap().text_value.unwrap(),
        "AZaz09-._~"
    );
    assert_eq!(operation.convert("a+b/c%").unwrap().text_value.unwrap(), "a%2Bb%2Fc%25");
    assert_eq!(operation.convert("\n\u{7f}").unwrap().text_value.unwrap(), "%0A%7F");
    assert_eq!(operation.convert("").unwrap().text_value.unwrap(), "");
}

#[test]
fn url_decode_reads_escapes_and_keeps_the_rest() {
    let operation = OperationDecodeURL {};
    assert_eq!(operation.convert("this%20that").unwrap().text_value.unwrap(), "this that");
    assert_eq!(
        operation.convert("%F0%9F%91%BE%20Exterminate%21").unwrap().text_value.unwrap(),
        "\u{1f47e} Exterminate!"
    );
    assert_eq!(operation.convert("a+b").unwrap().text_value.unwrap(), "a+b");
    assert_eq!(operation.convert("%2f%2F").unwrap().text_value.unwrap(), "//");
    assert_eq!(operation.convert("%").unwrap().text_value.unwrap(), "%");
    assert_eq!(operation.convert("%4").unwrap().text_value.unwrap(), "%4");
    assert_eq!(operation.convert("%%").unwrap().text_value.unwrap(), "%%");
    assert_eq!(operation.convert("%zz41").unwrap().text_value.unwrap(), "%zz41");
    assert_eq!(operation.convert("%4z%41").unwrap().text_value.unwrap(), "%4zA");
    assert_eq!(operation.convert("%%41").unwrap().text_value.unwrap(), "%A");
    assert_eq!(operation.convert("%4%41").unwrap().text_value.unwrap(), "%4A");
    assert_eq!(operation.convert("").unwrap().text_value.unwrap(), "");
}

#[test]
fn url_decode_describes_bytes_that_are_no_utf8() {
    let expected = String::from_utf8(vec![0x61, 0xff]).unwrap_err().to_string();
    match (OperationDecodeURL {}).convert("a%ff") {
        Err(TextOperationError::InvalidInputError(description)) => {
            assert_eq!(description, expected)
        }
        _ => panic!("expected a description"),
    }
}

#[test]
fn url_round_trip_restores_the_text() {
    for text in ["", "a b", "100% sure?", "\u{1f47e}/\u{e9}", "%41", "~-_."] {
        let encoded = (OperationEncodeURL {}).convert(text).unwrap().text_value.unwrap();
        let decoded = (OperationDecodeURL {}).convert(&encoded).unwrap().text_value.unwrap();
        assert_eq!(decoded, text);
    }
}

#[test]
fn web_operations_are_named() {
    assert_eq!((OperationEncodeBase64 {}).get_id(), "TO_BASE64");
    assert_eq!((OperationEncodeBase64 {}).get_name(), "Base64 Encode");
    assert_eq!((OperationEncodeBase64UrlSafe {}).get_id(), "TO_URL_BASE64");
    assert_eq!((OperationEncodeBase64UrlSafe {}).get_name(), "Base64 (URL Safe) Encode");
    assert_eq!((OperationDecodeBase64 {}).get_id(), "FROM_BASE64");
    assert_eq!((OperationDecodeBase64 {}).get_name(), "Base64 Decode");
    assert_eq!((OperationEncodeURL {}).get_id(), "URL_ENCODE");
    assert_eq!((OperationEncodeURL {}).get_name(), "URL Encode");
    assert_eq!((OperationDecodeURL {}).get_id(), "URL_DECODE");
    assert_eq!((OperationDecodeURL {}).get_name(), "URL Decode");
}
