//! What can go wrong between a client and the upstream, and what the client is told of it.
use crate::text::{decimal_text, joined};
use vstd::prelude::*;

verus! {

/// A failure of the proxy.
#[derive(Debug)]
pub enum ProxyError {
    /// The configuration cannot be used.
    Config(String),
    /// The upstream could not be reached, or its response not read.
    Upstream(String),
    /// The upstream answered with a status that is no success.
    UpstreamStatus { status: u16, body: String },
    /// The upstream rejected the credentials.
    Authentication { status: u16 },
    /// A page is no JSON document.
    Json(serde_json::Error),
    /// The configured pointer leads to no array.
    MissingArray(String),
    /// The configured pointer leads to something other than a string or null.
    MissingNext(String),
    /// The next link cannot be followed within the origin of the upstream.
    ForeignNext(String),
}

/// A failure, by what it says.
pub enum Failure {
    Config(Seq<char>),
    Upstream(Seq<char>),
    UpstreamStatus { status: u16, body: Seq<char> },
    Authentication { status: u16 },
    Json,
    MissingArray(Seq<char>),
    MissingNext(Seq<char>),
    ForeignNext(Seq<char>),
}

impl View for ProxyError {
    type V = Failure;

    open spec fn view(&self) -> Failure {
        match self {
            ProxyError::Config(message) => Failure::Config(message@),
            ProxyError::Upstream(message) => Failure::Upstream(message@),
            ProxyError::UpstreamStatus { status, body } => Failure::UpstreamStatus {
                status: *status,
                body: body@,
            },
            ProxyError::Authentication { status } => Failure::Authentication { status: *status },
            ProxyError::Json(_) => Failure::Json,
            ProxyError::MissingArray(pointer) => Failure::MissingArray(pointer@),
            ProxyError::MissingNext(pointer) => Failure::MissingNext(pointer@),
            ProxyError::ForeignNext(pointer) => Failure::ForeignNext(pointer@),
        }
    }
}

/// A status code that HTTP allows: three digits.
pub open spec fn is_status(status: u16) -> bool {
    100 <= status <= 999
}

/// Whether a status reports success.
pub open spec fn is_success(status: u16) -> bool {
    200 <= status < 300
}

impl Failure {
    /// The status that a failure carries, if any, is one that HTTP allows.
    pub open spec fn well_formed(self) -> bool {
        match self {
            Failure::UpstreamStatus { status, .. } => is_status(status),
            Failure::Authentication { status } => is_status(status),
            _ => true,
        }
    }
}

/// The reason phrase that the `http` crate knows for a status code, or its placeholder for an
/// unknown one.
pub uninterp spec fn reason_phrase(status: u16) -> Seq<char>;

/// `http::StatusCode` as text: the number, a space, and the reason phrase.
pub open spec fn status_text(status: u16) -> Seq<char> {
    decimal_text(status as nat) + seq![' '] + reason_phrase(status)
}

/// `http::StatusCode::to_string` of a status code. A number outside three digits is no status
/// code.
#[verifier::external_body]
fn describe_status(status: u16) -> (r: String)
    requires
        is_status(status),
    ensures
        r@ == decimal_text(status as nat) + seq![' '] + reason_phrase(status),
{
    http::StatusCode::from_u16(status).unwrap().to_string()
}

/// The text that std's `Debug` writes for a string: quoted, with special characters escaped.
pub uninterp spec fn debug_text(s: Seq<char>) -> Seq<char>;

/// std's `Debug` formatting of a string.
#[verifier::external_body]
fn describe_text(s: &str) -> (r: String)
    ensures
        r@ == debug_text(s@),
{
    format!("{:?}", s)
}

/// What a client and a log are told of a failure. Nothing of an upstream body or of a transport
/// error is repeated.
pub open spec fn summary(failure: Failure) -> Seq<char> {
    match failure {
        Failure::UpstreamStatus { status, .. } => "upstream HTTP status "@ + status_text(status),
        Failure::Authentication { status } => "upstream authentication failed with HTTP status "@
            + status_text(status),
        Failure::Config(message) => "configuration error: "@ + message,
        Failure::Upstream(_) => "upstream transport error"@,
        Failure::Json => "invalid upstream JSON"@,
        Failure::MissingArray(pointer) => "missing array at JSON pointer "@ + debug_text(pointer),
        Failure::MissingNext(pointer) => "invalid next link at JSON pointer "@ + debug_text(
            pointer,
        ),
        Failure::ForeignNext(pointer) => "next link leaves the upstream origin at JSON pointer "@
            + debug_text(pointer),
    }
}

/// Summarises a failure for a client and a log.
pub fn error_summary(error: &ProxyError) -> (r: String)
    requires
        error@.well_formed(),
    ensures
        r@ == summary(error@),
{
    match error {
        ProxyError::UpstreamStatus { status, .. } => joined(
            "upstream HTTP status ",
            describe_status(*status).as_str(),
        ),
        ProxyError::Authentication { status } => joined(
            "upstream authentication failed with HTTP status ",
            describe_status(*status).as_str(),
        ),
        ProxyError::Config(message) => joined("configuration error: ", message.as_str()),
        ProxyError::Upstream(_) => "upstream transport error".to_owned(),
        ProxyError::Json(_) => "invalid upstream JSON".to_owned(),
        ProxyError::MissingArray(pointer) => joined(
            "missing array at JSON pointer ",
            describe_text(pointer.as_str()).as_str(),
        ),
        ProxyError::MissingNext(pointer) => joined(
            "invalid next link at JSON pointer ",
            describe_text(pointer.as_str()).as_str(),
        ),
        ProxyError::ForeignNext(pointer) => joined(
            "next link leaves the upstream origin at JSON pointer ",
            describe_text(pointer.as_str()).as_str(),
        ),
    }
}

/// What is told of a failure does not depend on what the upstream sent, nor on how a transport
/// failed.
pub proof fn law_summary_hides_upstream(status: u16, a: Seq<char>, b: Seq<char>)
    ensures
        summary(Failure::UpstreamStatus { status, body: a }) == summary(
            Failure::UpstreamStatus { status, body: b },
        ),
        summary(Failure::Upstream(a)) == summary(Failure::Upstream(b)),
{
}

// ---------------------------------------------------------------------------------------------
// Replies

/// A complete reply to a client.
pub struct Reply {
    pub status: u16,
    pub content_type: String,
    /// The value of the `WWW-Authenticate` header, if the reply has one.
    pub challenge: Option<String>,
    pub body: String,
}

/// A complete reply, by its contents.
pub struct ReplyView {
    pub status: u16,
    pub content_type: Seq<char>,
    pub challenge: Option<Seq<char>>,
    pub body: Seq<char>,
}

impl View for Reply {
    type V = ReplyView;

    open spec fn view(&self) -> ReplyView {
        ReplyView {
            status: self.status,
            content_type: self.content_type@,
            challenge: match self.challenge {
                Some(value) => Some(value@),
                None => None,
            },
            body: self.body@,
        }
    }
}

/// A reply in plain text without a challenge.
pub open spec fn plain_reply(status: u16, message: Seq<char>) -> ReplyView {
    ReplyView { status, content_type: "text/plain"@, challenge: None, body: message }
}

/// A reply that asks for HTTP Basic Authentication.
pub open spec fn challenge_reply(message: Seq<char>) -> ReplyView {
    ReplyView {
        status: 401,
        content_type: "text/plain"@,
        challenge: Some("Basic realm=\"api-pagination-proxy\""@),
        body: message,
    }
}

/// The status with which a failure is reported while no output has been sent.
pub open spec fn failure_status(failure: Failure) -> u16 {
    match failure {
        Failure::Authentication { status } => status,
        Failure::Config(_) => 500,
        _ => 502,
    }
}

/// A reply in plain text.
pub fn plain_error(status: u16, message: &str) -> (r: Reply)
    ensures
        r@ == plain_reply(status, message@),
{
    Reply {
        status,
        content_type: "text/plain".to_owned(),
        challenge: None,
        body: message.to_owned(),
    }
}

/// A reply that asks the client for HTTP Basic Authentication.
pub fn unauthorized(message: &str) -> (r: Reply)
    ensures
        r@ == challenge_reply(message@),
{
    Reply {
        status: 401,
        content_type: "text/plain".to_owned(),
        challenge: Some("Basic realm=\"api-pagination-proxy\"".to_owned()),
        body: message.to_owned(),
    }
}

/// The reply to a request that failed before any output was sent.
pub fn error_response(error: &ProxyError) -> (r: Reply)
    requires
        error@.well_formed(),
    ensures
        r@ == plain_reply(failure_status(error@), summary(error@)),
{
    let status: u16 = match error {
        ProxyError::Authentication { status } => *status,
        ProxyError::Config(_) => 500,
        _ => 502,
    };
    plain_error(status, error_summary(error).as_str())
}

/// A failure is reported in plain text. A rejection of the credentials keeps the status of the
/// upstream, a configuration that cannot be used is an error of the proxy, and everything else is one
/// of the upstream.
pub proof fn law_failure_reply(failure: Failure, message: Seq<char>)
    ensures
        ({
            let reply = plain_reply(failure_status(failure), message);
            &&& reply.content_type == "text/plain"@ && reply.challenge is None && reply.body
                == message
            &&& failure matches Failure::Authentication { status } ==> reply.status == status
            &&& failure is Config ==> reply.status == 500
            &&& !(failure is Authentication) && !(failure is Config) ==> reply.status == 502
        }),
{
}

/// What is told of a failure: a status by its number and reason, the message of a configuration, the
/// pointer that leads nowhere, and nothing else but which kind of failure it is.
pub proof fn law_summary(status: u16, text: Seq<char>)
    ensures
        ({
            let reason = decimal_text(status as nat) + seq![' '] + reason_phrase(status);
            &&& summary(Failure::UpstreamStatus { status, body: text }) == "upstream HTTP status "@
                + reason
            &&& summary(Failure::Authentication { status })
                == "upstream authentication failed with HTTP status "@ + reason
        }),
        summary(Failure::Config(text)) == "configuration error: "@ + text,
        summary(Failure::Upstream(text)) == "upstream transport error"@,
        summary(Failure::Json) == "invalid upstream JSON"@,
        summary(Failure::MissingArray(text)) == "missing array at JSON pointer "@ + debug_text(text),
        summary(Failure::MissingNext(text)) == "invalid next link at JSON pointer "@ + debug_text(
            text,
        ),
        summary(Failure::ForeignNext(text))
            == "next link leaves the upstream origin at JSON pointer "@ + debug_text(text),
        is_success(status) <==> 200 <= status <= 299,
        is_status(status) <==> 100 <= status <= 999,
{
}

} // verus!
