//! The operation that changes nothing.

use super::text_operation::{
    text_result, ErrorModel, ResultModel, TextOperation, TextOperationError, TextOperationResult,
};
use vstd::prelude::*;

verus! {

/// Hands its input back unchanged.
pub struct OperationNone {}

impl TextOperation for OperationNone {
    open spec fn id_view(&self) -> Seq<char> {
        "NONE"@
    }

    open spec fn name_view(&self) -> Seq<char> {
        "None"@
    }

    open spec fn converted(&self, input: Seq<char>) -> Result<ResultModel, ErrorModel> {
        Ok(text_result(input))
    }

    fn get_id(&self) -> (id: &'static str) {
        "NONE"
    }

    fn get_name(&self) -> (name: &'static str) {
        "None"
    }

    fn convert(&self, input: &str) -> (outcome: Result<TextOperationResult, TextOperationError>) {
        Ok(TextOperationResult::with_string(input.to_owned()))
    }
}

} // verus!
