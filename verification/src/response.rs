use crate::text::{same_str, text_of};
use vstd::prelude::*;
use vstd::string::*;

verus! {

/// The statuses with which a request is answered.
#[derive(Clone, Copy, Debug, PartialEq, Eq, Structural)]
pub enum Status {
    /// 200: the delivery was processed, or ignored on purpose.
    Success,
    /// 401: the delivery is not authentic.
    Unauthorized,
    /// 404: the path is not that of the webhook.
    NotFound,
    /// 405: the method is not POST.
    MethodNotAllowed,
    /// 500: processing failed.
    InternalServerError,
}

/// An answer as plain values: the status, the content type and the body.
#[derive(Clone, Debug, PartialEq, Eq)]
pub struct Response {
    pub status: Status,
    pub content_type: String,
    pub body: String,
}

/// Where a request goes.
#[derive(Clone, Copy, Debug, PartialEq, Eq, Structural)]
pub enum Route {
    /// To the webhook handler.
    Webhook,
    /// Nowhere: it is answered at once with this status.
    Refused(Status),
}

/// The model of a `Response`.
pub struct ResponseView {
    pub status: Status,
    pub content_type: Seq<char>,
    pub body: Seq<char>,
}

impl View for Response {
    type V = ResponseView;

    open spec fn view(&self) -> Self::V {
        ResponseView { status: self.status, content_type: self.content_type@, body: self.body@ }
    }
}

/// The reason phrase that the `http` crate holds for a status code, if it
/// holds one.
pub uninterp spec fn canonical_reason(code: u16) -> Option<Seq<char>>;

impl Status {
    /// The number of the status.
    pub open spec fn number(self) -> u16 {
        match self {
            Status::Success => 200,
            Status::Unauthorized => 401,
            Status::NotFound => 404,
            Status::MethodNotAllowed => 405,
            Status::InternalServerError => 500,
        }
    }

    /// The reason phrase of the status.
    pub open spec fn reason(self) -> Seq<char> {
        match self {
            Status::Success => "OK"@,
            Status::Unauthorized => "Unauthorized"@,
            Status::NotFound => "Not Found"@,
            Status::MethodNotAllowed => "Method Not Allowed"@,
            Status::InternalServerError => "Internal Server Error"@,
        }
    }

    /// The number of the status.
    pub fn code(self) -> (code: u16)
        ensures
            code == self.number(),
    {
        match self {
            Status::Success => 200,
            Status::Unauthorized => 401,
            Status::NotFound => 404,
            Status::MethodNotAllowed => 405,
            Status::InternalServerError => 500,
        }
    }
}

/// The body that reports a status: a JSON object whose one member, `status`,
/// is the reason phrase.
pub open spec fn body_for(status: Status) -> Seq<char> {
    "{\"status\":\""@ + status.reason() + "\"}"@
}

/// The answer for a status.
pub open spec fn response_for(status: Status) -> ResponseView {
    ResponseView { status, content_type: "application/json"@, body: body_for(status) }
}

/// Where a request with this method and path goes: anything but POST is
/// refused as a method that is not allowed, any path but `/v1/webhook` as
/// not found.
pub open spec fn route_of(method: Seq<char>, path: Seq<char>) -> Route {
    if method != "POST"@ {
        Route::Refused(Status::MethodNotAllowed)
    } else if path != "/v1/webhook"@ {
        Route::Refused(Status::NotFound)
    } else {
        Route::Webhook
    }
}

/// `http::StatusCode::from_u16` followed by `canonical_reason`: the reason
/// phrase that the crate's table gives for a code, none for a number that is
/// no status code or that the table lacks. The five phrases stated are those
/// of the table.
#[verifier::external_body]
fn reason_phrase(code: u16) -> (r: Option<String>)
    ensures
        text_of(r) == canonical_reason(code),
        code == 200 ==> text_of(r) == Some("OK"@),
        code == 401 ==> text_of(r) == Some("Unauthorized"@),
        code == 404 ==> text_of(r) == Some("Not Found"@),
        code == 405 ==> text_of(r) == Some("Method Not Allowed"@),
        code == 500 ==> text_of(r) == Some("Internal Server Error"@),
{
    match http::StatusCode::from_u16(code) {
        Ok(status) => status.canonical_reason().map(str::to_string),
        Err(_) => None,
    }
}

/// Builds the answer for a status: JSON that names the status by its reason
/// phrase.
pub fn build_response(status: Status) -> (r: Response)
    ensures
        r@ == response_for(status),
{
    let mut body = "{\"status\":\"".to_owned();
    match reason_phrase(status.code()) {
        Some(reason) => {
            body.append(reason.as_str());
        },
        None => {},
    }
    body.append("\"}");
    assert(body@ =~= body_for(status));
    Response { status, content_type: "application/json".to_owned(), body }
}

/// Decides where a request goes, from its method and the path of its URI.
pub fn function_handler(method: &str, path: &str) -> (r: Route)
    ensures
        r == route_of(method@, path@),
{
    if !same_str(method, "POST") {
        Route::Refused(Status::MethodNotAllowed)
    } else if !same_str(path, "/v1/webhook") {
        Route::Refused(Status::NotFound)
    } else {
        Route::Webhook
    }
}

} // verus!
