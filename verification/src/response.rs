//! Complete responses, from the body that the API sends to the canonical form.
use vstd::prelude::*;
use crate::error::ByokError;
use crate::error::ByokErrorView;
use crate::gateway::print_translate_error;
use crate::gateway::translate_response;
use crate::gateway::translated_response;
use crate::gateway::without_created;
use crate::gateway::write_response;
use crate::json::member;
use crate::json::Json;
use crate::json::JsonView;
use crate::usage::check_response_counts;
use crate::usage::response_counts_fit;
use crate::value::json_bytes;
use crate::value::print_json_error;
use crate::value::read_slice;
use crate::value::slice_json;
use crate::value::write_vec;

verus! {

/// Whether a result is the translation of a response body: the canonical response with some
/// time of creation, or the error.
pub open spec fn is_completion(body: Seq<u8>, result: Result<Json, ByokError>) -> bool {
    match translated_response(body) {
        Ok(Ok(fields)) => {
            &&& result matches Ok(json)
            &&& without_created(Ok(json@)) == Ok::<JsonView, Seq<char>>(fields)
            &&& member(json@, "created"@) matches Some(JsonView::Number(_))
        },
        Ok(Err(text)) => result matches Err(error) && error@ == ByokErrorView::Translation(text),
        Err(text) => result matches Err(error) && error@ == ByokErrorView::Translation(text),
    }
}

/// Translates the body of a response.
pub fn complete_response(body: &[u8]) -> (result: Result<Json, ByokError>)
    requires
        response_counts_fit(body@),
    ensures
        is_completion(body@, result),
{
    match translate_response(body) {
        Ok(response) => match write_response(response) {
            Ok(value) => Ok(Json::from_value(value)),
            Err(error) => Err(ByokError::Translation(print_json_error(&error))),
        },
        Err(error) => Err(ByokError::Translation(print_translate_error(&error))),
    }
}

/// Translates the body of a response whose token counts are known to fit; gives nothing where
/// they are not.
pub fn complete_checked_response(body: &[u8]) -> (result: Option<Result<Json, ByokError>>)
    ensures
        match result {
            Some(result) => response_counts_fit(body@) && is_completion(body@, result),
            None => !response_counts_fit(body@),
        },
{
    if check_response_counts(body) {
        Some(complete_response(body))
    } else {
        None
    }
}

/// What is to be done with the body of a response.
pub enum ResponseStep {
    /// The tool names of the response have to be renamed back first.
    Rename(Json),
    /// The response is translated, or it cannot be.
    Finished(Result<Json, ByokError>),
    /// The token counts are too large to be added.
    CountsTooLarge,
}

/// The first step on the body of a response: to read it where its tool names have to be renamed
/// back, and to translate it where they have not.
pub fn begin_response(remap_tools: bool, body: &[u8]) -> (step: ResponseStep)
    ensures
        if remap_tools {
            match slice_json(body@) {
                Ok(raw) => step matches ResponseStep::Rename(json) && json@ == raw,
                Err(text) => step matches ResponseStep::Finished(Err(error)) && error@
                    == ByokErrorView::Translation(text),
            }
        } else if response_counts_fit(body@) {
            step matches ResponseStep::Finished(result) && is_completion(body@, result)
        } else {
            step is CountsTooLarge
        },
{
    if remap_tools {
        match read_slice(body) {
            Ok(raw) => ResponseStep::Rename(raw),
            Err(text) => ResponseStep::Finished(Err(ByokError::Translation(text))),
        }
    } else {
        match complete_checked_response(body) {
            Some(result) => ResponseStep::Finished(result),
            None => ResponseStep::CountsTooLarge,
        }
    }
}

/// The step on a response whose tool names have been renamed back: to write it out again and to
/// translate it.
pub fn end_response(renamed: Json) -> (step: ResponseStep)
    ensures
        match json_bytes(renamed@) {
            Ok(body) => if response_counts_fit(body) {
                step matches ResponseStep::Finished(result) && is_completion(body, result)
            } else {
                step is CountsTooLarge
            },
            Err(text) => step matches ResponseStep::Finished(Err(error)) && error@
                == ByokErrorView::Translation(text),
        },
{
    match write_vec(renamed) {
        Ok(body) => match complete_checked_response(body.as_slice()) {
            Some(result) => ResponseStep::Finished(result),
            None => ResponseStep::CountsTooLarge,
        },
        Err(text) => ResponseStep::Finished(Err(ByokError::Translation(text))),
    }
}

} // verus!
