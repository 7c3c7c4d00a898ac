//! The ordered extraction rules that turn what a handler returned into a
//! normalized response, and the error responses for handler failures.

use vstd::prelude::*;

use crate::response::{Body, BodyView, RespView, Response};
use crate::status::Status;

verus! {

/// A handler's return value at the specification level.
#[verifier::ext_equal]
pub enum HandlerValueView {
    Resp(RespView),
    Stat(u16),
    TextStatus(Seq<char>, u16),
    JsonStatus(Seq<char>, u16),
    Text(Seq<char>),
    Json(Seq<char>),
    Unsupported,
}

/// The shape of a handler's return value, as the processing stage sees
/// it. A JSON value arrives already encoded as text by the body codec.
pub enum HandlerValue {
    /// Already a response.
    Resp(Response),
    /// A bare status code.
    Stat(Status),
    /// A text body with an explicit status.
    TextStatus(String, Status),
    /// An encoded JSON body with an explicit status.
    JsonStatus(String, Status),
    /// A plain text body.
    Text(String),
    /// An encoded JSON body.
    Json(String),
    /// A value that matches none of the accepted shapes.
    Unsupported,
}

impl View for HandlerValue {
    type V = HandlerValueView;

    open spec fn view(&self) -> HandlerValueView {
        match self {
            HandlerValue::Resp(resp) => HandlerValueView::Resp(resp@),
            HandlerValue::Stat(st) => HandlerValueView::Stat(st.code),
            HandlerValue::TextStatus(s, st) => HandlerValueView::TextStatus(s@, st.code),
            HandlerValue::JsonStatus(s, st) => HandlerValueView::JsonStatus(s@, st.code),
            HandlerValue::Text(s) => HandlerValueView::Text(s@),
            HandlerValue::Json(s) => HandlerValueView::Json(s@),
            HandlerValue::Unsupported => HandlerValueView::Unsupported,
        }
    }
}

/// A response of the given status with one body text and content type.
pub open spec fn simple_resp(code: u16, content_type: Seq<char>, body: Seq<char>) -> RespView {
    RespView {
        status: code,
        headers: seq![("Content-Type"@, content_type)],
        body: BodyView::Text(body),
    }
}

/// The response a handler value converts to, rule by rule; nothing for
/// an unsupported shape.
pub open spec fn convert_spec(v: HandlerValueView) -> Option<RespView> {
    match v {
        HandlerValueView::Resp(rv) => Some(rv),
        HandlerValueView::Stat(code) => Some(simple_resp(code, "text/plain"@, Seq::empty())),
        HandlerValueView::TextStatus(s, code) => Some(simple_resp(code, "text/plain"@, s)),
        HandlerValueView::JsonStatus(s, code) => Some(simple_resp(code, "application/json"@, s)),
        HandlerValueView::Text(s) => Some(simple_resp(200, "text/plain"@, s)),
        HandlerValueView::Json(s) => Some(simple_resp(200, "application/json"@, s)),
        HandlerValueView::Unsupported => None,
    }
}

/// The failure of the conversion rules: no accepted shape matched.
#[derive(Clone, Copy, Debug, PartialEq, Eq, Structural)]
pub struct ConvertError {}

/// Turns a handler's return value into a response, trying the rules in
/// order: an actual response passes through; a bare status becomes an
/// empty text response with that status; a (body, status) pair keeps its
/// status with a text or JSON content type; a plain string becomes a
/// text response with status 200; encoded JSON becomes a JSON response
/// with status 200. Any other shape is an error.
pub fn convert_to_response(value: HandlerValue) -> (r: Result<Response, ConvertError>)
    ensures
        r is Ok <==> convert_spec(value@) is Some,
        r matches Ok(resp) ==> Some(resp@) == convert_spec(value@),
        match value {
            HandlerValue::Resp(resp) => r == Ok::<Response, ConvertError>(resp),
            HandlerValue::Stat(st) => r matches Ok(resp) && resp.status == st && (resp.body
                matches Body::Text(t) && t@.len() == 0) && resp.headers@ == seq![
                ("Content-Type"@, "text/plain"@),
            ],
            HandlerValue::TextStatus(s, st) => r matches Ok(resp) && resp.status == st
                && resp.body == Body::Text(s) && resp.headers@ == seq![
                ("Content-Type"@, "text/plain"@),
            ],
            HandlerValue::JsonStatus(s, st) => r matches Ok(resp) && resp.status == st
                && resp.body == Body::Text(s) && resp.headers@ == seq![
                ("Content-Type"@, "application/json"@),
            ],
            HandlerValue::Text(s) => r matches Ok(resp) && resp.status.code == 200 && resp.body
                == Body::Text(s) && resp.headers@ == seq![("Content-Type"@, "text/plain"@)],
            HandlerValue::Json(s) => r matches Ok(resp) && resp.status.code == 200 && resp.body
                == Body::Text(s) && resp.headers@ == seq![("Content-Type"@, "application/json"@)],
            HandlerValue::Unsupported => r is Err,
        },
{
    match value {
        HandlerValue::Resp(resp) => Ok(resp),
        HandlerValue::Stat(st) => Ok(Response::from_status(st)),
        HandlerValue::TextStatus(s, st) => Ok(Response::from_text(s, st)),
        HandlerValue::JsonStatus(s, st) => Ok(Response::from_json_text(s, st)),
        HandlerValue::Text(s) => Ok(Response::from_text(s, Status::ok())),
        HandlerValue::Json(s) => Ok(Response::from_json_text(s, Status::ok())),
        HandlerValue::Unsupported => Err(ConvertError {}),
    }
}

/// Why a handler failed: a payload-validation failure or any other
/// uncaught error.
#[derive(Clone, Copy, Debug, PartialEq, Eq, Structural)]
pub enum HandlerErrorKind {
    Validation,
    Other,
}

/// A handler failure and its textual description.
pub struct HandlerError {
    pub kind: HandlerErrorKind,
    pub message: String,
}

/// The response view a handler failure yields: status 400 for a
/// validation failure, 500 otherwise, with the description as the body.
pub open spec fn error_response_spec(kind: HandlerErrorKind, message: Seq<char>) -> RespView {
    simple_resp(
        if kind == HandlerErrorKind::Validation {
            400
        } else {
            500
        },
        "text/plain"@,
        message,
    )
}

/// The response a handler failure yields: status 400 for a validation
/// failure, 500 otherwise, with the error's description as the body.
pub fn error_response(err: HandlerError) -> (r: Response)
    ensures
        r@ == error_response_spec(err.kind, err.message@),
        r.status.code == if err.kind == HandlerErrorKind::Validation {
            400int
        } else {
            500int
        },
        r.body == Body::Text(err.message),
        r.headers@ == seq![("Content-Type"@, "text/plain"@)],
{
    let status = match err.kind {
        HandlerErrorKind::Validation => Status::bad_request(),
        HandlerErrorKind::Other => Status::internal_server_error(),
    };
    Response::from_text(err.message, status)
}

} // verus!
