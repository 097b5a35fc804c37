//! What holds of messages.

use vstd::prelude::*;
use vstd::string::*;
use crate::json::{json_get, json_int, JsonView};
use crate::lsp::{
    err_response, normal_response, ok_response, value_request_id, warning, RequestIdView,
    ResponseView, INVALID_REQUEST, METHOD_NOT_FOUND, REQUEST_CANCELED, REQUEST_FAILED,
    SERVER_ERROR_START,
};
use crate::table::find_by_first;

verus! {

/// The codes of errors are those of the protocol.
pub proof fn error_codes_are_those_of_the_protocol()
    ensures
        REQUEST_FAILED == -32803,
        SERVER_ERROR_START == -32099,
        INVALID_REQUEST == -32600,
        REQUEST_CANCELED == -32800,
        METHOD_NOT_FOUND == -32601,
{
}

/// The answer that a request has succeeded has a result and no error, and the answer that it has failed
/// an error and no result. Both are for the request.
pub proof fn answers_are_for_their_request(
    id: RequestIdView,
    result: JsonView,
    code: i32,
    message: Seq<char>,
)
    ensures
        ok_response(id, result).id == id,
        ok_response(id, result).result == Some(result),
        ok_response(id, result).error is None,
        err_response(id, code, message).id == id,
        err_response(id, code, message).result is None,
        err_response(id, code, message).error matches Some(error) && error.code == code
            && error.message == message && error.data is None,
{
}

/// A warning is logged as one, with its text.
pub proof fn warnings_are_log_messages(message: Seq<char>)
    ensures
        warning(message).method == "window/logMessage"@,
        json_get(warning(message).params, "message"@) == Some(JsonView::Text(message)),
        json_get(warning(message).params, "type"@) matches Some(JsonView::Number(kind))
            && kind.integer == Some(2i64),
{
    reveal_strlit("type");
    reveal_strlit("message");
    let members = warning(message).params->Object_0;
    assert("type"@.len() == 4 && "message"@.len() == 7);
    find_by_first(members, "type"@, 0);
    assert(members[0] == ("type"@, json_int(2)));
    assert(members[0].0 != "message"@);
    find_by_first(members, "message"@, 1);
}

/// An answer without a result and without an error has the result `null`, and any other is as the child
/// gave it.
pub proof fn empty_answers_are_null(answer: ResponseView)
    ensures
        answer.result is None && answer.error is None ==> normal_response(answer).result == Some(
            JsonView::Null,
        ) && normal_response(answer).error is None,
        answer.result is Some || answer.error is Some ==> normal_response(answer) == answer,
        normal_response(answer).id == answer.id,
{
}

/// An id is a text or a number of 32 bits. Nothing else is an id.
pub proof fn ids_are_texts_or_numbers(value: JsonView)
    ensures
        value matches JsonView::Text(text) ==> value_request_id(value) == Some(
            RequestIdView::Text(text),
        ),
        forall|n: i32|
            value is Number && value->Number_0.integer == Some(n as i64) ==> value_request_id(value)
                == Some(#[trigger] id_number(n)),
        value_request_id(value) matches Some(RequestIdView::Number(n)) ==> value is Number
            && value->Number_0.integer == Some(n as i64),
        value_request_id(value) matches Some(RequestIdView::Text(text)) ==> value
            == JsonView::Text(text),
{
}

/// A number as an id.
pub open spec fn id_number(n: i32) -> RequestIdView {
    RequestIdView::Number(n)
}

} // verus!
