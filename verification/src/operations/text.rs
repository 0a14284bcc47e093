//! Case mapping.

use super::text_operation::{
    text_result, ErrorModel, ResultModel, TextOperation, TextOperationError, TextOperationResult,
};
use vstd::prelude::*;

verus! {

/// `text` in upper case, by the full case mapping of Unicode.
pub uninterp spec fn upper_cased(text: Seq<char>) -> Seq<char>;

/// `text` in lower case, by the full case mapping of Unicode.
pub uninterp spec fn lower_cased(text: Seq<char>) -> Seq<char>;

/// Calls `str::to_uppercase` of std. The contract claims that the outcome
/// depends on the characters of the text alone.
#[verifier::external_body]
fn to_upper_case(text: &str) -> (mapped: String)
    ensures
        mapped@ == upper_cased(text@),
{
    text.to_uppercase()
}

/// Calls `str::to_lowercase` of std. The contract claims that the outcome
/// depends on the characters of the text alone.
#[verifier::external_body]
fn to_lower_case(text: &str) -> (mapped: String)
    ensures
        mapped@ == lower_cased(text@),
{
    text.to_lowercase()
}

/// Maps a text to upper case.
pub struct OperationUpperCase {}

impl TextOperation for OperationUpperCase {
    open spec fn id_view(&self) -> Seq<char> {
        "UPPER_CASE"@
    }

    open spec fn name_view(&self) -> Seq<char> {
        "To upper case"@
    }

    open spec fn converted(&self, input: Seq<char>) -> Result<ResultModel, ErrorModel> {
        Ok(text_result(upper_cased(input)))
    }

    fn get_id(&self) -> (id: &'static str) {
        "UPPER_CASE"
    }

    fn get_name(&self) -> (name: &'static str) {
        "To upper case"
    }

    fn convert(&self, input: &str) -> (outcome: Result<TextOperationResult, TextOperationError>) {
        Ok(TextOperationResult::with_string(to_upper_case(input)))
    }
}

/// Maps a text to lower case.
pub struct OperationLowerCase {}

impl TextOperation for OperationLowerCase {
    open spec fn id_view(&self) -> Seq<char> {
        "LOWER_CASE"@
    }

    open spec fn name_view(&self) -> Seq<char> {
        "To lower case"@
    }

    open spec fn converted(&self, input: Seq<char>) -> Result<ResultModel, ErrorModel> {
        Ok(text_result(lower_cased(input)))
    }

    fn get_id(&self) -> (id: &'static str) {
        "LOWER_CASE"
    }

    fn get_name(&self) -> (name: &'static str) {
        "To lower case"
    }

    fn convert(&self, input: &str) -> (outcome: Result<TextOperationResult, TextOperationError>) {
        Ok(TextOperationResult::with_string(to_lower_case(input)))
    }
}

} // verus!
