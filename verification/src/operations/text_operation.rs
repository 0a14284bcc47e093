//! The contract that every text operation meets, with the values it returns.

use super::chars::{append_decimal, decimal_text, text_from_utf8};
use super::hex::{hex_string, hex_text};
use vstd::prelude::*;
use vstd::string::StringExecFns;
use vstd::utf8::{decode_utf8, valid_utf8};

verus! {

/// What an error says, as a mathematical value.
pub enum ErrorModel {
    InvalidInput,
    InvalidInputError(Seq<char>),
    InvalidInputAtOffset(nat),
}

/// Why an operation refused its input.
#[derive(Debug)]
pub enum TextOperationError {
    /// The input is not acceptable, with no further detail.
    InvalidInput(),
    /// The input is not acceptable, for the reason described.
    InvalidInputError(String),
    /// The input holds an unacceptable character at this offset.
    InvalidInputAtOffset(usize),
}

impl View for TextOperationError {
    type V = ErrorModel;

    open spec fn view(&self) -> ErrorModel {
        match self {
            TextOperationError::InvalidInput() => ErrorModel::InvalidInput,
            TextOperationError::InvalidInputError(description) => ErrorModel::InvalidInputError(
                description@,
            ),
            TextOperationError::InvalidInputAtOffset(offset) => ErrorModel::InvalidInputAtOffset(
                *offset as nat,
            ),
        }
    }
}

/// A text between double quotes, as std's `Debug` prints a `str`, with its
/// escapes.
pub uninterp spec fn debug_quoted(text: Seq<char>) -> Seq<char>;

/// Formats a text with std's `Debug` for `str`. The contract claims that the
/// outcome depends on the characters of the text alone.
#[verifier::external_body]
fn quote_for_debug(text: &str) -> (quoted: String)
    ensures
        quoted@ == debug_quoted(text@),
{
    format!("{:?}", text)
}

/// The text that displays an error: the variant's name, followed for the two
/// variants that carry a value by that value in parentheses, a description
/// quoted as `debug_quoted` has it and an offset as a decimal numeral.
pub open spec fn rendered_error(e: ErrorModel) -> Seq<char> {
    match e {
        ErrorModel::InvalidInput => "InvalidInput"@,
        ErrorModel::InvalidInputError(description) => "InvalidInputError("@ + debug_quoted(
            description,
        ) + ")"@,
        ErrorModel::InvalidInputAtOffset(offset) => "InvalidInputAtOffset("@ + decimal_text(offset)
            + ")"@,
    }
}

impl TextOperationError {
    /// The text that displays this error.
    pub fn to_string(&self) -> (text: String)
        ensures
            text@ == rendered_error(self@),
    {
        match self {
            TextOperationError::InvalidInput() => "InvalidInput".to_owned(),
            TextOperationError::InvalidInputError(description) => {
                let mut text = "InvalidInputError(".to_owned();
                let quoted = quote_for_debug(description.as_str());
                text.append(quoted.as_str());
                text.append(")");
                text
            },
            TextOperationError::InvalidInputAtOffset(offset) => {
                let mut text = "InvalidInputAtOffset(".to_owned();
                append_decimal(&mut text, *offset);
                text.append(")");
                text
            },
        }
    }
}

/// What a result holds, as a mathematical value.
pub struct ResultModel {
    pub text: Option<Seq<char>>,
    pub bytes: Option<Seq<u8>>,
}

/// The model of a result that holds the text `text` and no bytes.
pub open spec fn text_result(text: Seq<char>) -> ResultModel {
    ResultModel { text: Some(text), bytes: None }
}

/// The one text that a result stands for: its text where it has one, else its
/// bytes as two hexadecimal digits each, else nothing.
pub open spec fn coerced_text(r: ResultModel) -> Seq<char> {
    match r.text {
        Some(text) => text,
        None => match r.bytes {
            Some(bytes) => hex_text(bytes),
            None => Seq::empty(),
        },
    }
}

/// What an operation produced: a text or a sequence of bytes.
pub struct TextOperationResult {
    pub text_value: Option<String>,
    pub byte_value: Option<Vec<u8>>,
}

impl View for TextOperationResult {
    type V = ResultModel;

    open spec fn view(&self) -> ResultModel {
        ResultModel {
            text: match self.text_value {
                Some(text) => Some(text@),
                None => None,
            },
            bytes: match self.byte_value {
                Some(bytes) => Some(bytes@),
                None => None,
            },
        }
    }
}

impl TextOperationResult {
    /// A result that holds `string` and no bytes.
    pub fn with_string(string: String) -> (r: Self)
        ensures
            r@ == text_result(string@),
            r.text_value == Some(string),
            r.byte_value is None,
    {
        TextOperationResult { text_value: Some(string), byte_value: None }
    }

    /// A result that holds `bytes` and no text.
    pub fn with_bytes(bytes: Vec<u8>) -> (r: Self)
        ensures
            r@ == (ResultModel { text: None, bytes: Some(bytes@) }),
            r.text_value is None,
            r.byte_value == Some(bytes),
    {
        TextOperationResult { text_value: None, byte_value: Some(bytes) }
    }

    /// The one text that this result stands for.
    pub fn into_text(self) -> (text: String)
        ensures
            text@ == coerced_text(self@),
    {
        match self.text_value {
            Some(text) => text,
            None => match self.byte_value {
                Some(bytes) => hex_string(bytes.as_slice()),
                None => String::new(),
            },
        }
    }
}

impl From<TextOperationResult> for String {
    /// The one text that `result` stands for.
    fn from(result: TextOperationResult) -> (text: String)
        ensures
            text@ == coerced_text(result@),
    {
        result.into_text()
    }
}

/// The conversion states what it returns in its own contract, over the view
/// of the text, and gives no value of its own to the general rule of std.
impl vstd::std_specs::convert::FromSpecImpl<TextOperationResult> for String {
    open spec fn obeys_from_spec() -> bool {
        false
    }

    open spec fn from_spec(result: TextOperationResult) -> String {
        arbitrary()
    }
}

/// The outcome of a conversion, as a mathematical value.
pub open spec fn outcome_model(
    outcome: Result<TextOperationResult, TextOperationError>,
) -> Result<ResultModel, ErrorModel> {
    match outcome {
        Ok(r) => Ok(r@),
        Err(e) => Err(e@),
    }
}

/// A named, stateless transformation of a text.
pub trait TextOperation {
    /// The identifier, as a mathematical value.
    spec fn id_view(&self) -> Seq<char>;

    /// The display name, as a mathematical value.
    spec fn name_view(&self) -> Seq<char>;

    /// What `convert` returns on `input`.
    spec fn converted(&self, input: Seq<char>) -> Result<ResultModel, ErrorModel>;

    /// The stable identifier of this operation.
    fn get_id(&self) -> (id: &'static str)
        ensures
            id@ == self.id_view(),
    ;

    /// The name under which this operation is shown.
    fn get_name(&self) -> (name: &'static str)
        ensures
            name@ == self.name_view(),
    ;

    /// Applies the operation to `input`.
    fn convert(&self, input: &str) -> (outcome: Result<TextOperationResult, TextOperationError>)
        ensures
            outcome_model(outcome) == self.converted(input@),
    ;

    /// Applies the operation to the text that `input` encodes in UTF-8, and
    /// refuses bytes that are no UTF-8.
    fn convert_bytes(&self, input: &Vec<u8>) -> (outcome: Result<
        TextOperationResult,
        TextOperationError,
    >)
        ensures
            valid_utf8(input@) ==> outcome_model(outcome) == self.converted(decode_utf8(input@)),
            !valid_utf8(input@) ==> outcome_model(outcome) == Err::<ResultModel, ErrorModel>(
                ErrorModel::InvalidInput,
            ),
    {
        let mut bytes: Vec<u8> = Vec::new();
        let mut i: usize = 0;
        while i < input.len()
            invariant
                i <= input.len(),
                bytes@ == input@.take(i as int),
            decreases input.len() - i,
        {
            bytes.push(input[i]);
            assert(input@.take(i + 1) =~= input@.take(i as int).push(input@[i as int]));
            i += 1;
        }
        assert(input@.take(i as int) =~= input@);
        match text_from_utf8(bytes) {
            Ok(text) => self.convert(text.as_str()),
            Err(_) => Err(TextOperationError::InvalidInput()),
        }
    }

    /// The identifier of the operation that undoes this one, where there is
    /// one.
    fn get_inverse(&self) -> (inverse: Option<String>)
        ensures
            inverse is None,
    {
        None
    }
}

} // verus!
