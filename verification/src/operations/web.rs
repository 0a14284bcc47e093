//! Base64 and percent-encoding.

use super::chars::{text_from_utf8, utf8_failure_text};
use super::hex::hex_value;
use super::text_operation::{
    text_result, ErrorModel, ResultModel, TextOperation, TextOperationError, TextOperationResult,
};
use base64::Engine;
use vstd::prelude::*;
use vstd::string::StringSliceAdditionalSpecFns;
use vstd::utf8::{decode_utf8, encode_utf8, is_ascii_chars, valid_utf8};

verus! {

/// The Base64 text of `bytes` in the standard alphabet, padded.
pub uninterp spec fn standard_base64(bytes: Seq<u8>) -> Seq<char>;

/// The Base64 text of `bytes` in the URL-safe alphabet, padded.
pub uninterp spec fn url_safe_base64(bytes: Seq<u8>) -> Seq<char>;

/// The bytes that `text` stands for in the standard alphabet, or `None`
/// where it is no Base64 of that alphabet.
pub uninterp spec fn standard_base64_decoded(text: Seq<u8>) -> Option<Seq<u8>>;

/// The bytes that `text` stands for in the URL-safe alphabet, or the message
/// that says why it is no Base64 of that alphabet.
pub uninterp spec fn url_safe_base64_decoded(text: Seq<u8>) -> Result<Seq<u8>, Seq<char>>;

/// Whether the Base64 text of `len` bytes, padded, has a length that the
/// machine can hold.
pub open spec fn base64_fits(len: nat) -> bool {
    len / 3 * 4 + (if len % 3 == 0 {
        0int
    } else {
        4int
    }) <= usize::MAX
}

/// Calls `Engine::encode` of base64 on its engine `STANDARD`. The call
/// panics where the length of the outcome overflows, which `requires` leaves
/// out. The contract claims that the outcome depends on the bytes alone.
#[verifier::external_body]
fn encode_standard(bytes: &[u8]) -> (text: String)
    requires
        base64_fits(bytes@.len()),
    ensures
        text@ == standard_base64(bytes@),
{
    base64::engine::general_purpose::STANDARD.encode(bytes)
}

/// Calls `Engine::encode` of base64 on its engine `URL_SAFE`. The call
/// panics where the length of the outcome overflows, which `requires` leaves
/// out. The contract claims that the outcome depends on the bytes alone.
#[verifier::external_body]
fn encode_url_safe(bytes: &[u8]) -> (text: String)
    requires
        base64_fits(bytes@.len()),
    ensures
        text@ == url_safe_base64(bytes@),
{
    base64::engine::general_purpose::URL_SAFE.encode(bytes)
}

/// Calls `Engine::decode` of base64 on its engine `STANDARD` and keeps the
/// bytes of a success. The contract claims that the outcome depends on the
/// given bytes alone.
#[verifier::external_body]
fn decode_standard(text: &[u8]) -> (bytes: Option<Vec<u8>>)
    ensures
        match bytes {
            Some(decoded) => standard_base64_decoded(text@) == Some(decoded@),
            None => standard_base64_decoded(text@) is None,
        },
{
    base64::engine::general_purpose::STANDARD.decode(text).ok()
}

/// Calls `Engine::decode` of base64 on its engine `URL_SAFE` and, where it
/// fails, takes the message of its error. The contract claims that bytes and
/// message depend on the given bytes alone.
#[verifier::external_body]
fn decode_url_safe(text: &[u8]) -> (outcome: Result<Vec<u8>, String>)
    ensures
        match outcome {
            Ok(decoded) => url_safe_base64_decoded(text@) == Ok::<Seq<u8>, Seq<char>>(decoded@),
            Err(message) => url_safe_base64_decoded(text@) == Err::<Seq<u8>, Seq<char>>(
                message@,
            ),
        },
{
    match base64::engine::general_purpose::URL_SAFE.decode(text) {
        Ok(decoded) => Ok(decoded),
        Err(e) => Err(e.to_string()),
    }
}

/// Whether the Base64 text of `len` bytes has a length that the machine can
/// hold.
pub fn fits_base64(len: usize) -> (fits: bool)
    ensures
        fits == base64_fits(len as nat),
{
    let chunks: usize = len / 3;
    if chunks > usize::MAX / 4 {
        false
    } else {
        len % 3 == 0 || chunks * 4 <= usize::MAX - 4
    }
}

/// What encoding to Base64 gives: the encoded text, or a refusal where its
/// length would overflow.
pub open spec fn base64_outcome(len: nat, encoded: Seq<char>) -> Result<ResultModel, ErrorModel> {
    if base64_fits(len) {
        Ok(text_result(encoded))
    } else {
        Err(ErrorModel::InvalidInput)
    }
}

/// Encodes the UTF-8 bytes of a text as Base64 in the standard alphabet.
pub struct OperationEncodeBase64 {}

impl TextOperation for OperationEncodeBase64 {
    open spec fn id_view(&self) -> Seq<char> {
        "TO_BASE64"@
    }

    open spec fn name_view(&self) -> Seq<char> {
        "Base64 Encode"@
    }

    open spec fn converted(&self, input: Seq<char>) -> Result<ResultModel, ErrorModel> {
        base64_outcome(encode_utf8(input).len(), standard_base64(encode_utf8(input)))
    }

    fn get_id(&self) -> (id: &'static str) {
        "TO_BASE64"
    }

    fn get_name(&self) -> (name: &'static str) {
        "Base64 Encode"
    }

    fn convert(&self, input: &str) -> (outcome: Result<TextOperationResult, TextOperationError>) {
        let bytes = input.as_bytes();
        if !fits_base64(bytes.len()) {
            return Err(TextOperationError::InvalidInput());
        }
        let encoded = encode_standard(bytes);
        Ok(TextOperationResult::with_string(encoded))
    }
}

/// Encodes the UTF-8 bytes of a text as Base64 in the URL-safe alphabet.
pub struct OperationEncodeBase64UrlSafe {}

impl TextOperation for OperationEncodeBase64UrlSafe {
    open spec fn id_view(&self) -> Seq<char> {
        "TO_URL_BASE64"@
    }

    open spec fn name_view(&self) -> Seq<char> {
        "Base64 (URL Safe) Encode"@
    }

    open spec fn converted(&self, input: Seq<char>) -> Result<ResultModel, ErrorModel> {
        base64_outcome(encode_utf8(input).len(), url_safe_base64(encode_utf8(input)))
    }

    fn get_id(&self) -> (id: &'static str) {
        "TO_URL_BASE64"
    }

    fn get_name(&self) -> (name: &'static str) {
        "Base64 (URL Safe) Encode"
    }

    fn convert(&self, input: &str) -> (outcome: Result<TextOperationResult, TextOperationError>) {
        let bytes = input.as_bytes();
        if !fits_base64(bytes.len()) {
            return Err(TextOperationError::InvalidInput());
        }
        let encoded = encode_url_safe(bytes);
        Ok(TextOperationResult::with_string(encoded))
    }
}

/// The text that `bytes` encode in UTF-8, or the empty text where they are
/// no UTF-8.
pub open spec fn utf8_text_or_empty(bytes: Seq<u8>) -> Seq<char> {
    if valid_utf8(bytes) {
        decode_utf8(bytes)
    } else {
        Seq::empty()
    }
}

/// The text that stands for the outcome of decoding Base64: the text of the
/// bytes, or the message of the failure.
pub open spec fn decoded_text_of(outcome: Result<Seq<u8>, Seq<char>>) -> Seq<char> {
    match outcome {
        Ok(bytes) => utf8_text_or_empty(bytes),
        Err(message) => message,
    }
}

/// The text that decoding Base64 gives for the UTF-8 bytes `text`: that of
/// the standard alphabet where `text` is of it, else what the URL-safe
/// alphabet gives, be it bytes or a message.
pub open spec fn base64_decoded_text(text: Seq<u8>) -> Seq<char> {
    match standard_base64_decoded(text) {
        Some(bytes) => utf8_text_or_empty(bytes),
        None => decoded_text_of(url_safe_base64_decoded(text)),
    }
}

/// The text that stands for the outcome of decoding Base64.
pub fn decoded_text(outcome: Result<Vec<u8>, String>) -> (text: String)
    ensures
        text@ == decoded_text_of(
            match outcome {
                Ok(bytes) => Ok(bytes@),
                Err(message) => Err(message@),
            },
        ),
{
    match outcome {
        Ok(bytes) => match text_from_utf8(bytes) {
            Ok(text) => text,
            Err(_) => String::new(),
        },
        Err(message) => message,
    }
}

/// Decodes Base64 of either alphabet. It never refuses: where the input is
/// Base64 of neither alphabet, the text it returns is the message that says
/// why.
pub struct OperationDecodeBase64 {}

impl TextOperation for OperationDecodeBase64 {
    open spec fn id_view(&self) -> Seq<char> {
        "FROM_BASE64"@
    }

    open spec fn name_view(&self) -> Seq<char> {
        "Base64 Decode"@
    }

    open spec fn converted(&self, input: Seq<char>) -> Result<ResultModel, ErrorModel> {
        Ok(text_result(base64_decoded_text(encode_utf8(input))))
    }

    fn get_id(&self) -> (id: &'static str) {
        "FROM_BASE64"
    }

    fn get_name(&self) -> (name: &'static str) {
        "Base64 Decode"
    }

    fn convert(&self, input: &str) -> (outcome: Result<TextOperationResult, TextOperationError>) {
        let bytes = input.as_bytes();
        let decoded = match decode_standard(bytes) {
            Some(v) => decoded_text(Ok(v)),
            None => decoded_text(decode_url_safe(bytes)),
        };
        Ok(TextOperationResult::with_string(decoded))
    }
}

/// Whether percent-encoding leaves a byte as it is: the letters and digits
/// of ASCII and `-`, `.`, `_`, `~`.
pub open spec fn is_unreserved(b: u8) -> bool {
    ||| 0x30 <= b <= 0x39
    ||| 0x41 <= b <= 0x5a
    ||| 0x61 <= b <= 0x7a
    ||| b == 0x2d
    ||| b == 0x2e
    ||| b == 0x5f
    ||| b == 0x7e
}

/// The upper-case hexadecimal digit that stands for `n`, for `n` below
/// sixteen.
pub open spec fn upper_hex_digit(n: int) -> char {
    if 0 <= n <= 9 {
        (0x30 + n) as u8 as char
    } else {
        (0x41 + n - 10) as u8 as char
    }
}

/// One byte, percent-encoded.
pub open spec fn percent_encoded_byte(b: u8) -> Seq<char> {
    if is_unreserved(b) {
        seq![b as char]
    } else {
        seq!['%', upper_hex_digit(b as int / 16), upper_hex_digit(b as int % 16)]
    }
}

/// Percent-encoding: every byte that is not unreserved becomes `%` and its
/// two upper-case hexadecimal digits.
pub open spec fn percent_encoded(bytes: Seq<u8>) -> Seq<char>
    decreases bytes.len(),
{
    if bytes.len() == 0 {
        Seq::empty()
    } else {
        percent_encoded_byte(bytes[0]) + percent_encoded(bytes.drop_first())
    }
}

/// The number that the ASCII character `b` stands for as a hexadecimal
/// digit of either case.
pub open spec fn ascii_hex_value(b: u8) -> Option<int> {
    hex_value(b as char)
}

/// Percent-decoding: `%` and two hexadecimal digits become the byte they
/// spell; every other byte, and a `%` that no two digits follow, stays as it
/// is.
pub open spec fn percent_decoded(bytes: Seq<u8>) -> Seq<u8>
    decreases bytes.len(),
{
    if bytes.len() == 0 {
        bytes
    } else if bytes[0] != 0x25 {
        seq![bytes[0]] + percent_decoded(bytes.skip(1))
    } else if bytes.len() < 3 {
        bytes
    } else {
        match ascii_hex_value(bytes[1]) {
            None => seq![0x25u8] + percent_decoded(bytes.skip(1)),
            Some(high) => match ascii_hex_value(bytes[2]) {
                None => seq![0x25u8, bytes[1]] + percent_decoded(bytes.skip(2)),
                Some(low) => seq![(16 * high + low) as u8] + percent_decoded(bytes.skip(3)),
            },
        }
    }
}

/// Calls `urlencoding::encode`, which percent-encodes every byte of the text
/// but the letters and digits of ASCII and `-`, `.`, `_`, `~`, with
/// upper-case digits.
#[verifier::external_body]
fn percent_encode(text: &str) -> (encoded: String)
    ensures
        encoded@ == percent_encoded(text.spec_bytes()),
{
    urlencoding::encode(text).into_owned()
}

/// Calls `urlencoding::decode`, which percent-decodes the bytes of the text
/// and takes the outcome as UTF-8, and, where that fails, takes the message
/// of its error, which is the one of std for those bytes.
#[verifier::external_body]
fn percent_decode(text: &str) -> (outcome: Result<String, String>)
    ensures
        match outcome {
            Ok(decoded) => valid_utf8(percent_decoded(text.spec_bytes())) && decoded@
                == decode_utf8(percent_decoded(text.spec_bytes())),
            Err(message) => !valid_utf8(percent_decoded(text.spec_bytes())) && message@
                == utf8_failure_text(percent_decoded(text.spec_bytes())),
        },
{
    match urlencoding::decode(text) {
        Ok(decoded) => Ok(decoded.into_owned()),
        Err(e) => Err(e.to_string()),
    }
}

/// Percent-encodes the UTF-8 bytes of a text.
pub struct OperationEncodeURL {}

impl TextOperation for OperationEncodeURL {
    open spec fn id_view(&self) -> Seq<char> {
        "URL_ENCODE"@
    }

    open spec fn name_view(&self) -> Seq<char> {
        "URL Encode"@
    }

    open spec fn converted(&self, input: Seq<char>) -> Result<ResultModel, ErrorModel> {
        Ok(text_result(percent_encoded(encode_utf8(input))))
    }

    fn get_id(&self) -> (id: &'static str) {
        "URL_ENCODE"
    }

    fn get_name(&self) -> (name: &'static str) {
        "URL Encode"
    }

    fn convert(&self, input: &str) -> (outcome: Result<TextOperationResult, TextOperationError>) {
        let encoded = percent_encode(input);
        Ok(TextOperationResult::with_string(encoded))
    }
}

/// What percent-decoding gives: the text that the decoded bytes encode in
/// UTF-8, or a refusal that describes why they are no UTF-8.
pub open spec fn url_decoded(input: Seq<char>) -> Result<ResultModel, ErrorModel> {
    let bytes = percent_decoded(encode_utf8(input));
    if valid_utf8(bytes) {
        Ok(text_result(decode_utf8(bytes)))
    } else {
        Err(ErrorModel::InvalidInputError(utf8_failure_text(bytes)))
    }
}

/// Percent-decodes a text.
pub struct OperationDecodeURL {}

impl TextOperation for OperationDecodeURL {
    open spec fn id_view(&self) -> Seq<char> {
        "URL_DECODE"@
    }

    open spec fn name_view(&self) -> Seq<char> {
        "URL Decode"@
    }

    open spec fn converted(&self, input: Seq<char>) -> Result<ResultModel, ErrorModel> {
        url_decoded(input)
    }

    fn get_id(&self) -> (id: &'static str) {
        "URL_DECODE"
    }

    fn get_name(&self) -> (name: &'static str) {
        "URL Decode"
    }

    fn convert(&self, input: &str) -> (outcome: Result<TextOperationResult, TextOperationError>) {
        match percent_decode(input) {
            Ok(decoded) => Ok(TextOperationResult::with_string(decoded)),
            Err(description) => Err(TextOperationError::InvalidInputError(description)),
        }
    }
}

/// The bytes that stand for the characters of an ASCII text.
pub open spec fn ascii_bytes(text: Seq<char>) -> Seq<u8> {
    Seq::new(text.len(), |i: int| text[i] as u8)
}

/// A percent-encoded text is ASCII.
pub proof fn lemma_percent_encoded_is_ascii(bytes: Seq<u8>)
    ensures
        is_ascii_chars(percent_encoded(bytes)),
    decreases bytes.len(),
{
    if bytes.len() > 0 {
        lemma_percent_encoded_is_ascii(bytes.drop_first());
    }
}

/// Percent-decoding the bytes of a percent-encoded text gives back the bytes
/// that were encoded.
pub proof fn lemma_percent_decoded_of_encoded(bytes: Seq<u8>)
    ensures
        percent_decoded(ascii_bytes(percent_encoded(bytes))) == bytes,
    decreases bytes.len(),
{
    let encoded = ascii_bytes(percent_encoded(bytes));
    if bytes.len() == 0 {
        assert(encoded =~= bytes);
    } else {
        let b = bytes[0];
        let rest = ascii_bytes(percent_encoded(bytes.drop_first()));
        lemma_percent_decoded_of_encoded(bytes.drop_first());
        if is_unreserved(b) {
            assert(encoded[0] == b);
            assert(encoded.skip(1) =~= rest);
        } else {
            let high = upper_hex_digit(b as int / 16);
            let low = upper_hex_digit(b as int % 16);
            assert(encoded[0] == 0x25);
            assert(encoded[1] as char == high);
            assert(encoded[2] as char == low);
            assert(ascii_hex_value(encoded[1]) == Some(b as int / 16));
            assert(ascii_hex_value(encoded[2]) == Some(b as int % 16));
            assert(encoded.skip(3) =~= rest);
        }
        assert(seq![b] + bytes.drop_first() =~= bytes);
    }
}

/// Decoding what percent-encoding gives restores the text: for every text,
/// its percent-encoded form decodes to that text.
pub proof fn lemma_url_round_trip(text: Seq<char>)
    ensures
        (OperationEncodeURL {}).converted(text) == Ok::<ResultModel, ErrorModel>(
            text_result(percent_encoded(encode_utf8(text))),
        ),
        (OperationDecodeURL {}).converted(percent_encoded(encode_utf8(text))) == Ok::<
            ResultModel,
            ErrorModel,
        >(text_result(text)),
{
    let bytes = encode_utf8(text);
    let encoded = percent_encoded(bytes);
    lemma_percent_encoded_is_ascii(bytes);
    vstd::utf8::is_ascii_chars_encode_utf8(encoded);
    assert(encode_utf8(encoded) =~= ascii_bytes(encoded));
    lemma_percent_decoded_of_encoded(bytes);
    vstd::utf8::encode_utf8_valid_utf8(text);
    vstd::utf8::encode_utf8_decode_utf8(text);
}

} // verus!
