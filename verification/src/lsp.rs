//! The messages of the Language Server Protocol.

use vstd::prelude::*;
use crate::json::{json_int, Json, JsonView};
use crate::table::{Ident, Key};
use crate::text::same_text;

verus! {

/// The request is not valid in the state that the server is in.
pub const INVALID_REQUEST: i32 = -32600;

/// The server does not know the method.
pub const METHOD_NOT_FOUND: i32 = -32601;

/// The first of the codes that are left to servers.
pub const SERVER_ERROR_START: i32 = -32099;

/// The client has cancelled the request.
pub const REQUEST_CANCELED: i32 = -32800;

/// The request was well formed and failed.
pub const REQUEST_FAILED: i32 = -32803;

/// What a request is known by.
#[derive(Debug, PartialEq, Eq)]
pub enum RequestId {
    Number(i32),
    Text(String),
}

/// What a request is known by.
#[verifier::ext_equal]
pub enum RequestIdView {
    Number(i32),
    Text(Seq<char>),
}

impl View for RequestId {
    type V = RequestIdView;

    open spec fn view(&self) -> RequestIdView {
        match self {
            RequestId::Number(n) => RequestIdView::Number(*n),
            RequestId::Text(t) => RequestIdView::Text(t@),
        }
    }
}

impl Clone for RequestId {
    fn clone(&self) -> (r: RequestId)
        ensures
            r@ == self@,
    {
        match self {
            RequestId::Number(n) => RequestId::Number(*n),
            RequestId::Text(t) => RequestId::Text(t.clone()),
        }
    }
}

impl Ident for RequestIdView {
    open spec fn ident(self) -> RequestIdView {
        self
    }
}

impl Key for RequestId {
    fn same(&self, other: &RequestId) -> (r: bool) {
        match (self, other) {
            (RequestId::Number(a), RequestId::Number(b)) => *a == *b,
            (RequestId::Text(a), RequestId::Text(b)) => same_text(a.as_str(), b.as_str()),
            _ => false,
        }
    }

    fn again(&self) -> (r: RequestId) {
        self.clone()
    }
}

/// A request.
#[derive(Debug, PartialEq, Eq)]
pub struct Request {
    pub id: RequestId,
    pub method: String,
    pub params: Json,
}

/// A request.
#[verifier::ext_equal]
pub struct RequestView {
    pub id: RequestIdView,
    pub method: Seq<char>,
    pub params: JsonView,
}

impl View for Request {
    type V = RequestView;

    open spec fn view(&self) -> RequestView {
        RequestView { id: self.id@, method: self.method@, params: self.params@ }
    }
}

impl Clone for Request {
    fn clone(&self) -> (r: Request)
        ensures
            r@ == self@,
    {
        Request { id: self.id.clone(), method: self.method.clone(), params: self.params.clone() }
    }
}

/// A notification.
#[derive(Debug, PartialEq, Eq)]
pub struct Notification {
    pub method: String,
    pub params: Json,
}

/// A notification.
#[verifier::ext_equal]
pub struct NotificationView {
    pub method: Seq<char>,
    pub params: JsonView,
}

impl View for Notification {
    type V = NotificationView;

    open spec fn view(&self) -> NotificationView {
        NotificationView { method: self.method@, params: self.params@ }
    }
}

impl Clone for Notification {
    fn clone(&self) -> (r: Notification)
        ensures
            r@ == self@,
    {
        Notification { method: self.method.clone(), params: self.params.clone() }
    }
}

/// Why a request failed.
#[derive(Debug, PartialEq, Eq)]
pub struct ResponseError {
    pub code: i32,
    pub message: String,
    pub data: Option<Json>,
}

/// Why a request failed.
#[verifier::ext_equal]
pub struct ResponseErrorView {
    pub code: i32,
    pub message: Seq<char>,
    pub data: Option<JsonView>,
}

impl View for ResponseError {
    type V = ResponseErrorView;

    open spec fn view(&self) -> ResponseErrorView {
        ResponseErrorView {
            code: self.code,
            message: self.message@,
            data: match self.data {
                Some(data) => Some(data@),
                None => None,
            },
        }
    }
}

impl Clone for ResponseError {
    fn clone(&self) -> (r: ResponseError)
        ensures
            r@ == self@,
    {
        ResponseError {
            code: self.code,
            message: self.message.clone(),
            data: match &self.data {
                Some(data) => Some(data.clone()),
                None => None,
            },
        }
    }
}

/// The answer to a request.
#[derive(Debug, PartialEq, Eq)]
pub struct Response {
    pub id: RequestId,
    pub result: Option<Json>,
    pub error: Option<ResponseError>,
}

/// The answer to a request.
#[verifier::ext_equal]
pub struct ResponseView {
    pub id: RequestIdView,
    pub result: Option<JsonView>,
    pub error: Option<ResponseErrorView>,
}

impl View for Response {
    type V = ResponseView;

    open spec fn view(&self) -> ResponseView {
        ResponseView {
            id: self.id@,
            result: match self.result {
                Some(result) => Some(result@),
                None => None,
            },
            error: match self.error {
                Some(error) => Some(error@),
                None => None,
            },
        }
    }
}

impl Clone for Response {
    fn clone(&self) -> (r: Response)
        ensures
            r@ == self@,
    {
        Response {
            id: self.id.clone(),
            result: match &self.result {
                Some(result) => Some(result.clone()),
                None => None,
            },
            error: match &self.error {
                Some(error) => Some(error.clone()),
                None => None,
            },
        }
    }
}

/// The answer that a request has succeeded.
pub open spec fn ok_response(id: RequestIdView, result: JsonView) -> ResponseView {
    ResponseView { id, result: Some(result), error: None }
}

/// The answer that a request has failed.
pub open spec fn err_response(id: RequestIdView, code: i32, message: Seq<char>) -> ResponseView {
    ResponseView { id, result: None, error: Some(ResponseErrorView { code, message, data: None }) }
}

impl Response {
    /// The answer that a request has succeeded.
    pub fn new_ok(id: RequestId, result: Json) -> (r: Response)
        ensures
            r@ == ok_response(id@, result@),
    {
        Response { id, result: Some(result), error: None }
    }

    /// The answer that a request has failed.
    pub fn new_err(id: RequestId, code: i32, message: String) -> (r: Response)
        ensures
            r@ == err_response(id@, code, message@),
    {
        Response { id, result: None, error: Some(ResponseError { code, message, data: None }) }
    }
}

/// A message.
#[derive(Debug, PartialEq, Eq)]
pub enum Message {
    Request(Request),
    Response(Response),
    Notification(Notification),
}

/// A message.
#[verifier::ext_equal]
pub enum MessageView {
    Request(RequestView),
    Response(ResponseView),
    Notification(NotificationView),
}

impl View for Message {
    type V = MessageView;

    open spec fn view(&self) -> MessageView {
        match self {
            Message::Request(request) => MessageView::Request(request@),
            Message::Response(response) => MessageView::Response(response@),
            Message::Notification(notification) => MessageView::Notification(notification@),
        }
    }
}

impl Clone for Message {
    fn clone(&self) -> (r: Message)
        ensures
            r@ == self@,
    {
        match self {
            Message::Request(request) => Message::Request(request.clone()),
            Message::Response(response) => Message::Response(response.clone()),
            Message::Notification(notification) => Message::Notification(notification.clone()),
        }
    }
}

/// The notification that shows a warning to the user.
pub open spec fn warning(message: Seq<char>) -> NotificationView {
    NotificationView {
        method: "window/logMessage"@,
        params: JsonView::Object(
            seq![("type"@, json_int(2)), ("message"@, JsonView::Text(message))],
        ),
    }
}

/// The notification that shows a warning to the user.
pub fn new_warning(message: String) -> (r: Notification)
    ensures
        r@ == warning(message@),
{
    Notification {
        method: "window/logMessage".to_owned(),
        params: Json::object2("type", Json::whole(2), "message", Json::Text(message)),
    }
}

/// The answer of a child: one that has neither a result nor an error has the result `null`.
pub open spec fn normal_response(response: ResponseView) -> ResponseView {
    if response.result is None && response.error is None {
        ResponseView { result: Some(JsonView::Null), ..response }
    } else {
        response
    }
}

/// The answer of a child: one that has neither a result nor an error gets the result `null`.
pub fn normalize_child_response(response: Response) -> (r: Response)
    ensures
        r@ == normal_response(response@),
{
    let mut response = response;
    if response.result.is_none() && response.error.is_none() {
        response.result = Some(Json::Null);
    }
    response
}

/// The request that a value names by its id.
pub open spec fn value_request_id(value: JsonView) -> Option<RequestIdView> {
    match value {
        JsonView::Number(n) => match n.integer {
            Some(i) => if i32::MIN <= i <= i32::MAX {
                Some(RequestIdView::Number(i as i32))
            } else {
                None
            },
            None => None,
        },
        JsonView::Text(t) => Some(RequestIdView::Text(t)),
        _ => None,
    }
}

/// The request that a value names by its id.
pub fn request_id_from_value(value: &Json) -> (r: Option<RequestId>)
    ensures
        match r {
            Some(id) => value_request_id(value@) == Some(id@),
            None => value_request_id(value@) is None,
        },
{
    match value {
        Json::Number(n) => match n.integer {
            Some(i) => if i32::MIN as i64 <= i && i <= i32::MAX as i64 {
                Some(RequestId::Number(i as i32))
            } else {
                None
            },
            None => None,
        },
        Json::Text(t) => Some(RequestId::Text(t.clone())),
        _ => None,
    }
}

/// An answer of a child always has a result or an error, and one that had either is left alone.
pub proof fn child_responses_are_complete(response: ResponseView)
    ensures
        normal_response(response).result is Some || normal_response(response).error is Some,
        normal_response(response).id == response.id,
        response.result is Some || response.error is Some ==> normal_response(response) == response,
{
}

} // verus!
