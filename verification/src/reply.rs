//! Answers in plain text.

use vstd::prelude::*;

verus! {

/// How a request is answered.
#[derive(Debug, Clone, Copy, PartialEq, Eq, Structural)]
pub enum Status {
    /// The request may go on.
    Success,
    /// The token is missing or not accepted.
    Unauthorized,
    /// The token lacks the required scopes.
    Forbidden,
    /// There is nothing under the path.
    NotFound,
}

impl Status {
    /// The status code of HTTP.
    pub open spec fn number(self) -> u16 {
        match self {
            Status::Success => 200,
            Status::Unauthorized => 401,
            Status::Forbidden => 403,
            Status::NotFound => 404,
        }
    }

    /// The status code of HTTP.
    pub fn code(self) -> (r: u16)
        ensures
            r == self.number(),
    {
        match self {
            Status::Success => 200,
            Status::Unauthorized => 401,
            Status::Forbidden => 403,
            Status::NotFound => 404,
        }
    }
}

/// An answer in plain text.
#[derive(Debug, PartialEq, Eq)]
pub struct TextResponse {
    pub status: Status,
    pub body: String,
}

/// An answer in plain text.
pub struct ReplyView {
    pub status: Status,
    pub body: Seq<char>,
}

impl View for TextResponse {
    type V = ReplyView;

    open spec fn view(&self) -> ReplyView {
        ReplyView { status: self.status, body: self.body@ }
    }
}

/// An answer in plain text.
pub fn text_response(status: Status, body: &str) -> (r: TextResponse)
    ensures
        r@ == (ReplyView { status, body: body@ }),
{
    TextResponse { status, body: body.to_owned() }
}

/// A response of HTTP.
#[verifier::external_type_specification]
#[verifier::external_body]
#[verifier::reject_recursive_types(T)]
pub struct ExResponse<T>(http::Response<T>);

/// The response that `http::response::Builder` makes of a status code, a content
/// type and a body.
pub uninterp spec fn http_response(
    status: u16,
    content_type: Seq<char>,
    body: Seq<u8>,
) -> http::Response<Vec<u8>>;

/// Calls `http::Response::builder`, gives it the status and the header
/// `Content-Type`, and unwraps what its `body` returns, which is an error where
/// the status code or the text of the header is not one of HTTP. The contract
/// names the response.
#[verifier::external_body]
fn build_response(status: u16, content_type: &str, body: Vec<u8>) -> (r: http::Response<Vec<u8>>)
    requires
        100 <= status <= 999,
        forall|i: int|
            0 <= i < content_type@.len() ==> ' ' <= #[trigger] content_type@[i] <= '~',
    ensures
        r == http_response(status, content_type@, body@),
{
    http::Response::builder()
        .status(status)
        .header(http::header::CONTENT_TYPE, content_type)
        .body(body)
        .unwrap()
}

impl TextResponse {
    /// The answer as a response of HTTP.
    pub fn to_http(&self) -> (r: http::Response<Vec<u8>>)
        ensures
            r == http_response(
                self@.status.number(),
                "text/plain"@,
                vstd::utf8::encode_utf8(self@.body),
            ),
    {
        proof {
            reveal_strlit("text/plain");
        }
        build_response(self.status.code(), "text/plain", self.body.as_str().as_bytes_vec())
    }
}

/// All of an answer is seen, and its status is that of HTTP.
pub proof fn law_answer_is_seen_whole(response: TextResponse)
    ensures
        response@.status == response.status,
        response@.body == response.body@,
        response.status == Status::Success <==> response.status.number() == 200,
        response.status == Status::Unauthorized <==> response.status.number() == 401,
        response.status == Status::Forbidden <==> response.status.number() == 403,
        response.status == Status::NotFound <==> response.status.number() == 404,
{
}

} // verus!
