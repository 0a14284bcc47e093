//! Running an ordered list of operations over one input text.

use crate::operations::chars::{chars_of, is_white_space, is_whitespace};
use crate::operations::text_operation::{
    coerced_text, rendered_error, text_result, ErrorModel, ResultModel, TextOperation,
};
use crate::operations::text_operations::{registered, resolved, TextOperations};
use vstd::prelude::*;
use vstd::string::StrSliceExecFns;

verus! {

/// `text` without the white space at its end.
pub open spec fn trimmed_end(text: Seq<char>) -> Seq<char>
    decreases text.len(),
{
    if text.len() > 0 && is_white_space(text.last()) {
        trimmed_end(text.drop_last())
    } else {
        text
    }
}

/// `text` without the white space at its end.
pub fn trim_end(text: &str) -> (trimmed: String)
    ensures
        trimmed@ == trimmed_end(text@),
{
    let chars = chars_of(text);
    let mut end: usize = chars.len();
    let mut done = false;
    assert(chars@.take(end as int) =~= chars@);
    while end > 0 && !done
        invariant
            end <= chars.len(),
            trimmed_end(chars@) == trimmed_end(chars@.take(end as int)),
            done ==> end > 0 && !is_white_space(chars@[end - 1]),
        decreases end + (if done { 0int } else { 1int }),
    {
        if is_whitespace(chars[end - 1]) {
            assert(chars@.take(end as int).drop_last() =~= chars@.take(end - 1));
            end -= 1;
        } else {
            done = true;
        }
    }
    let kept = text.substring_char(0, end);
    assert(kept@ =~= chars@.take(end as int));
    kept.to_owned()
}

/// The text that the operations named by `ids` make of `text`, applied from
/// left to right, each to what the one before it gave. An identifier that
/// the catalog does not have stands for the operation that changes nothing.
/// The first operation that refuses ends the run, and the text is then what
/// displays its error.
pub open spec fn pipeline_text(text: Seq<char>, ids: Seq<Seq<char>>) -> Seq<char>
    decreases ids.len(),
{
    if ids.len() == 0 {
        text
    } else {
        match resolved(ids[0]).converted(text) {
            Ok(r) => pipeline_text(coerced_text(r), ids.drop_first()),
            Err(e) => rendered_error(e),
        }
    }
}

/// The text that a run gives for the input `source`: nothing where `source`
/// is empty once the white space at its end is gone, and else what the
/// operations make of the trimmed input.
pub open spec fn conversions_text(source: Seq<char>, ids: Seq<Seq<char>>) -> Seq<char> {
    if trimmed_end(source).len() == 0 {
        Seq::empty()
    } else {
        pipeline_text(trimmed_end(source), ids)
    }
}

/// The identifiers that `conversions` holds, as mathematical values.
pub open spec fn ids_of(conversions: Seq<String>) -> Seq<Seq<char>> {
    Seq::new(conversions.len(), |i: int| conversions[i]@)
}

/// Runs the operations named by `conversions`, in order, over `source_text`.
/// The outcome is always a text: that of the last operation, or what
/// displays the error of the first one that refused.
pub fn perform_conversions(
    operations: &TextOperations,
    source_text: String,
    conversions: Vec<String>,
) -> (text: String)
    ensures
        text@ == conversions_text(source_text@, ids_of(conversions@)),
        trimmed_end(source_text@).len() == 0 ==> text@.len() == 0,
{
    let mut working = trim_end(source_text.as_str());
    if working.as_str().is_empty() {
        return String::new();
    }
    let ghost ids = ids_of(conversions@);
    let ghost wanted = pipeline_text(working@, ids);
    let mut i: usize = 0;
    assert(ids.skip(0) =~= ids);
    while i < conversions.len()
        invariant
            i <= conversions.len(),
            ids == ids_of(conversions@),
            wanted == conversions_text(source_text@, ids),
            trimmed_end(source_text@).len() != 0,
            wanted == pipeline_text(working@, ids.skip(i as int)),
        decreases conversions.len() - i,
    {
        let operation = operations.get_operation_or_noop(conversions[i].as_str());
        let conversion = operation.convert(working.as_str());
        proof {
            assert(ids.skip(i as int)[0] == conversions@[i as int]@);
            assert(ids.skip(i as int).drop_first() =~= ids.skip(i + 1));
        }
        match conversion {
            Ok(result) => {
                working = result.into();
            },
            Err(e) => {
                return e.to_string();
            },
        }
        i += 1;
    }
    working
}

/// One identifier that the catalog does not have leaves the input as it is,
/// but for the white space at its end.
pub proof fn lemma_unknown_identifier_changes_nothing(source: Seq<char>, id: Seq<char>)
    requires
        registered(id) is None,
    ensures
        conversions_text(source, seq![id]) == trimmed_end(source),
{
    let ids = seq![id];
    assert(ids.drop_first().len() == 0);
    assert(resolved(id).converted(trimmed_end(source)) == Ok::<ResultModel, ErrorModel>(
        text_result(trimmed_end(source)),
    ));
    assert(pipeline_text(trimmed_end(source), ids.drop_first()) == trimmed_end(source));
    if trimmed_end(source).len() == 0 {
        assert(trimmed_end(source) =~= Seq::empty());
    }
}

/// A refusal ends the run: where the first operation accepts `text` and the
/// second refuses what the first gave, the outcome is what displays that
/// error, whatever operations follow.
pub proof fn lemma_failure_ends_pipeline(
    text: Seq<char>,
    first: Seq<char>,
    second: Seq<char>,
    rest: Seq<Seq<char>>,
    given: ResultModel,
    error: ErrorModel,
)
    requires
        resolved(first).converted(text) == Ok::<ResultModel, ErrorModel>(given),
        resolved(second).converted(coerced_text(given)) == Err::<ResultModel, ErrorModel>(error),
    ensures
        pipeline_text(text, seq![first, second] + rest) == rendered_error(error),
{
    let ids = seq![first, second] + rest;
    assert(ids[0] == first);
    assert(ids.drop_first()[0] == second);
    assert(pipeline_text(coerced_text(given), ids.drop_first()) == rendered_error(error));
}

} // verus!
