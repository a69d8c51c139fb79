//! HTTP Basic Authentication, and which requests are accepted.
use crate::error::{challenge_reply, plain_error, plain_reply, unauthorized, Reply, ReplyView};
use crate::headers::{ascii_text, is_visible, value_text};
use crate::text::{cut_at, law_cut_at, lowered, same_text, split_once, to_lower};
use base64::Engine;
use vstd::prelude::*;
use vstd::utf8::{decode_utf8, valid_utf8};

verus! {

/// The bytes that `base64`'s standard engine decodes from a text; nothing where it fails.
pub uninterp spec fn base64_decoded(text: Seq<char>) -> Option<Seq<u8>>;

/// `base64::engine::general_purpose::STANDARD.decode`: a function of the text.
#[verifier::external_body]
fn decode_base64(text: &str) -> (r: Option<Vec<u8>>)
    ensures
        r is Some <==> base64_decoded(text@) is Some,
        r matches Some(bytes) ==> base64_decoded(text@) == Some(bytes@),
{
    base64::engine::general_purpose::STANDARD.decode(text).ok()
}

/// `String::from_utf8` of std: the text that well-formed UTF-8 encodes.
#[verifier::external_body]
fn decode_text(bytes: Vec<u8>) -> (r: Option<String>)
    ensures
        r is Some <==> valid_utf8(bytes@),
        r matches Some(text) ==> text@ == decode_utf8(bytes@),
{
    String::from_utf8(bytes).ok()
}

/// What follows the scheme in the value of an `Authorization` header, where the scheme is Basic.
pub open spec fn basic_payload(header: Seq<u8>) -> Option<Seq<char>> {
    if !is_visible(header) {
        None
    } else {
        match cut_at(ascii_text(header), ' ') {
            Some((scheme, payload)) => if lowered(scheme) == "basic"@ {
                Some(payload)
            } else {
                None
            },
            None => None,
        }
    }
}

/// The two parts of a decoded payload, neither of them empty.
pub open spec fn user_and_secret(raw: Seq<char>) -> Option<(Seq<char>, Seq<char>)> {
    match cut_at(raw, ':') {
        Some((user, secret)) => if user.len() > 0 && secret.len() > 0 {
            Some((user, secret))
        } else {
            None
        },
        None => None,
    }
}

/// The two parts of decoded bytes.
pub open spec fn decoded_credentials(bytes: Option<Seq<u8>>) -> Option<(Seq<char>, Seq<char>)> {
    match bytes {
        Some(raw) => if valid_utf8(raw) {
            user_and_secret(decode_utf8(raw))
        } else {
            None
        },
        None => None,
    }
}

/// The credentials of an `Authorization` header.
pub open spec fn basic_credentials(header: Option<Seq<u8>>) -> Option<(Seq<char>, Seq<char>)> {
    match header {
        Some(value) => match basic_payload(value) {
            Some(payload) => decoded_credentials(base64_decoded(payload)),
            None => None,
        },
        None => None,
    }
}

/// The texts of a pair.
pub open spec fn pair_text(pair: Option<(String, String)>) -> Option<(Seq<char>, Seq<char>)> {
    match pair {
        Some(p) => Some((p.0@, p.1@)),
        None => None,
    }
}

/// Reads what follows the scheme in the value of an `Authorization` header.
pub fn read_payload(header: &[u8]) -> (r: Option<String>)
    ensures
        r is Some <==> basic_payload(header@) is Some,
        r matches Some(payload) ==> basic_payload(header@) == Some(payload@),
{
    let text = match value_text(header) {
        Some(text) => text,
        None => {
            return None;
        },
    };
    match split_once(text.as_str(), ' ') {
        Some((scheme, payload)) => {
            if same_text(to_lower(scheme.as_str()).as_str(), "basic") {
                Some(payload)
            } else {
                None
            }
        },
        None => None,
    }
}

/// Reads the two parts of decoded bytes.
pub fn read_credentials(bytes: Option<Vec<u8>>) -> (r: Option<(String, String)>)
    ensures
        pair_text(r) == decoded_credentials(
            match bytes {
                Some(b) => Some(b@),
                None => None,
            },
        ),
{
    let raw = match bytes {
        Some(bytes) => match decode_text(bytes) {
            Some(raw) => raw,
            None => {
                return None;
            },
        },
        None => {
            return None;
        },
    };
    match split_once(raw.as_str(), ':') {
        Some((user, secret)) => {
            if user.as_str().is_empty() || secret.as_str().is_empty() {
                None
            } else {
                Some((user, secret))
            }
        },
        None => None,
    }
}

/// What a client without usable credentials is told.
pub open spec fn required_message() -> Seq<char> {
    "HTTP Basic Authentication is required"@
}

/// Reads the credentials of an `Authorization` header.
pub fn credentials(header: Option<&[u8]>) -> (r: Result<(String, String), String>)
    ensures
        ({
            let value = match header {
                Some(h) => Some(h@),
                None => None,
            };
            match r {
                Ok(pair) => basic_credentials(value) == Some((pair.0@, pair.1@)),
                Err(message) => basic_credentials(value) is None && message@ == required_message(),
            }
        }),
{
    let payload = match header {
        Some(header) => read_payload(header),
        None => None,
    };
    let found = match payload {
        Some(payload) => read_credentials(decode_base64(payload.as_str())),
        None => None,
    };
    match found {
        Some(pair) => Ok(pair),
        None => Err("HTTP Basic Authentication is required".to_owned()),
    }
}

// ---------------------------------------------------------------------------------------------
// Requests

/// The reply to a request that is not accepted; nothing where it is.
pub open spec fn refusal(method: Seq<char>, found: Option<(Seq<char>, Seq<char>)>) -> Option<
    ReplyView,
> {
    if method != "GET"@ {
        Some(plain_reply(405, "GET only"@))
    } else if found is None {
        Some(challenge_reply(required_message()))
    } else {
        None
    }
}

/// Accepts a request, given its credentials.
pub fn answer_request(method: &str, found: Option<(String, String)>) -> (r: Result<
    (String, String),
    Reply,
>)
    ensures
        match r {
            Ok(pair) => refusal(method@, pair_text(found)) is None && pair_text(found) == Some(
                (pair.0@, pair.1@),
            ),
            Err(reply) => refusal(method@, pair_text(found)) == Some(reply@),
        },
{
    if !same_text(method, "GET") {
        return Err(plain_error(405, "GET only"));
    }
    match found {
        Some(pair) => Ok(pair),
        None => Err(unauthorized("HTTP Basic Authentication is required")),
    }
}

/// Accepts a request: only GET, and only with credentials.
pub fn accept_request(method: &str, authorization: Option<&[u8]>) -> (r: Result<
    (String, String),
    Reply,
>)
    ensures
        ({
            let found = basic_credentials(
                match authorization {
                    Some(h) => Some(h@),
                    None => None,
                },
            );
            match r {
                Ok(pair) => refusal(method@, found) is None && found == Some((pair.0@, pair.1@)),
                Err(reply) => refusal(method@, found) == Some(reply@),
            }
        }),
{
    answer_request(method, credentials(authorization).ok())
}

// ---------------------------------------------------------------------------------------------
// What holds of every request

proof fn lemma_cut(left: Seq<char>, mark: char, right: Seq<char>)
    requires
        !left.contains(mark),
    ensures
        cut_at(left.push(mark) + right, mark) == Some((left, right)),
{
    let text = left.push(mark) + right;
    law_cut_at(text, mark);
    assert(text[left.len() as int] == mark);
    assert(text.contains(mark));
    let (a, b) = cut_at(text, mark)->0;
    assert(text == a.push(mark) + b);
    if a.len() < left.len() {
        assert(text[a.len() as int] == mark);
        assert(left[a.len() as int] == mark);
    }
    if left.len() < a.len() {
        assert((a.push(mark) + b)[left.len() as int] == a[left.len() as int]);
        assert(a.contains(mark));
    }
    assert(a =~= left) by {
        assert forall|i: int| 0 <= i < a.len() implies a[i] == left[i] by {
            assert((a.push(mark) + b)[i] == (left.push(mark) + right)[i]);
        }
    }
    assert(b =~= right) by {
        assert forall|i: int| 0 <= i < right.len() implies b[i] == right[i] by {
            assert((a.push(mark) + b)[i + a.len() + 1] == (left.push(mark) + right)[i + a.len()
                + 1]);
        }
    }
}

/// The credentials of a header are what stands before and behind the first colon of its decoded
/// payload. They are found where the scheme is Basic, in capital or small letters, and neither of
/// them is empty.
pub proof fn law_credentials(
    header: Seq<u8>,
    scheme: Seq<char>,
    payload: Seq<char>,
    raw: Seq<u8>,
    user: Seq<char>,
    secret: Seq<char>,
)
    requires
        is_visible(header),
        ascii_text(header) == scheme.push(' ') + payload,
        !scheme.contains(' '),
        base64_decoded(payload) == Some(raw),
        valid_utf8(raw),
        decode_utf8(raw) == user.push(':') + secret,
        !user.contains(':'),
    ensures
        basic_credentials(Some(header)) == (if lowered(scheme) == "basic"@ && user.len() > 0
            && secret.len() > 0 {
            Some((user, secret))
        } else {
            None
        }),
{
    lemma_cut(scheme, ' ', payload);
    lemma_cut(user, ':', secret);
}

/// There are no credentials without a header, nor in one that is no visible text, that holds no
/// space, or whose payload is no Base64, no UTF-8 or without a colon.
pub proof fn law_no_credentials(header: Seq<u8>, scheme: Seq<char>, payload: Seq<char>)
    ensures
        basic_credentials(None) is None,
        !is_visible(header) || !ascii_text(header).contains(' ') ==> basic_credentials(
            Some(header),
        ) is None,
        ascii_text(header) == scheme.push(' ') + payload && !scheme.contains(' ') && (
        match base64_decoded(payload) {
            None => true,
            Some(raw) => !valid_utf8(raw) || !decode_utf8(raw).contains(':'),
        }) ==> basic_credentials(Some(header)) is None,
{
    law_cut_at(ascii_text(header), ' ');
    if ascii_text(header) == scheme.push(' ') + payload && !scheme.contains(' ') {
        lemma_cut(scheme, ' ', payload);
    }
    if let Some(raw) = base64_decoded(payload) {
        law_cut_at(decode_utf8(raw), ':');
    }
}

/// A request is accepted exactly where it is a GET with credentials. Any other method is answered
/// with 405, and a GET without credentials with 401 and a challenge for HTTP Basic Authentication.
pub proof fn law_refusal(method: Seq<char>, found: Option<(Seq<char>, Seq<char>)>)
    ensures
        refusal(method, found) is None <==> method == "GET"@ && found is Some,
        method != "GET"@ ==> (refusal(method, found) matches Some(reply) && reply.status == 405
            && reply.challenge is None && reply.body == "GET only"@ && reply.content_type
            == "text/plain"@),
        method == "GET"@ && found is None ==> (refusal(method, found) matches Some(reply)
            && reply.status == 401 && reply.challenge == Some(
            "Basic realm=\"api-pagination-proxy\""@,
        ) && reply.body == "HTTP Basic Authentication is required"@ && reply.content_type
            == "text/plain"@),
{
}

} // verus!
