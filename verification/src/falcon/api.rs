//! Requests to the Falcon API: their URLs, their replies, and what a client is told of failures.
use crate::auth::{answer_request, basic_credentials, credentials, pair_text, refusal};
use crate::config::CrowdStrikeConfig;
use crate::error::{is_success, plain_error, plain_reply, Reply, ReplyView};
use crate::headers::{ascii_text, is_visible, value_text};
use crate::json::{json, json_parsed, member, member_of, parse_json, Json};
use crate::query::{
    host_of_url, join_url, option_text, path_of_url, result_texts, scheme_of_url, url_host,
    url_joined, url_path, url_scheme,
};
use crate::text::{parse_number, parsed_number, same_text, trim_end, trimmed_end};
use vstd::prelude::*;

verus! {

/// A failure of the Falcon API.
#[derive(Debug, Clone, Copy, PartialEq, Eq, Structural)]
pub enum FalconError {
    /// The credentials were rejected.
    Auth(u16),
    /// A request was answered with a status that is no success.
    Status(u16),
    /// A request could not be sent, or its response not read.
    Transport,
    /// A response was not what it had to be.
    Decode,
}

// ---------------------------------------------------------------------------------------------
// Settings

/// What is wrong with settings, given what their base URL holds: its path, or what is wrong with it,
/// its scheme, and its host.
pub open spec fn fault_of(
    path: Result<Seq<char>, Seq<char>>,
    scheme: Option<Seq<char>>,
    host: Option<Seq<char>>,
    page_size: u64,
    lookback_days: i64,
) -> Option<Seq<char>> {
    match path {
        Err(message) => Some(message),
        Ok(_) => if scheme != Some("https"@) || host is None {
            Some("crowdstrike.base_url must be an HTTPS URL"@)
        } else {
            numbers_fault(page_size, lookback_days)
        },
    }
}

/// What is wrong with the settings.
pub open spec fn settings_fault(base_url: Seq<char>, page_size: u64, lookback_days: i64) -> Option<
    Seq<char>,
> {
    fault_of(
        url_path(base_url),
        url_scheme(base_url),
        url_host(base_url),
        page_size,
        lookback_days,
    )
}

/// Checks settings, given what their base URL holds.
pub fn find_fault(
    path: Result<String, String>,
    scheme: Option<String>,
    host: Option<String>,
    page_size: u64,
    lookback_days: i64,
) -> (r: Result<(), String>)
    ensures
        match r {
            Ok(()) => fault_of(
                result_texts(path),
                option_text(scheme),
                option_text(host),
                page_size,
                lookback_days,
            ) is None,
            Err(message) => fault_of(
                result_texts(path),
                option_text(scheme),
                option_text(host),
                page_size,
                lookback_days,
            ) == Some(message@),
        },
{
    match path {
        Ok(_) => {},
        Err(message) => {
            return Err(message);
        },
    }
    let secure: bool = match scheme {
        Some(scheme) => same_text(scheme.as_str(), "https"),
        None => false,
    };
    if !secure || host.is_none() {
        return Err("crowdstrike.base_url must be an HTTPS URL".to_owned());
    }
    check_numbers(page_size, lookback_days)
}

/// Checks the settings.
pub fn validate(settings: &CrowdStrikeConfig) -> (r: Result<(), String>)
    ensures
        match r {
            Ok(()) => settings_fault(
                settings.base_url@,
                settings.page_size,
                settings.lookback_days,
            ) is None,
            Err(message) => settings_fault(
                settings.base_url@,
                settings.page_size,
                settings.lookback_days,
            ) == Some(message@),
        },
{
    let base = settings.base_url.as_str();
    find_fault(
        path_of_url(base),
        scheme_of_url(base),
        host_of_url(base),
        settings.page_size,
        settings.lookback_days,
    )
}

/// What is wrong with the numbers of the settings.
pub open spec fn numbers_fault(page_size: u64, lookback_days: i64) -> Option<Seq<char>> {
    if page_size == 0 || page_size > 1000 {
        Some("crowdstrike.page_size must be 1 to 1000"@)
    } else if lookback_days < 0 {
        Some("crowdstrike.lookback_days must not be negative"@)
    } else {
        None
    }
}

/// Checks the numbers of the settings.
pub fn check_numbers(page_size: u64, lookback_days: i64) -> (r: Result<(), String>)
    ensures
        match r {
            Ok(()) => numbers_fault(page_size, lookback_days) is None,
            Err(message) => numbers_fault(page_size, lookback_days) == Some(message@),
        },
{
    if page_size == 0 || page_size > 1000 {
        return Err("crowdstrike.page_size must be 1 to 1000".to_owned());
    }
    if lookback_days < 0 {
        return Err("crowdstrike.lookback_days must not be negative".to_owned());
    }
    Ok(())
}

// ---------------------------------------------------------------------------------------------
// Acceptance

/// The reply to a request to the endpoint that is not accepted, given what is wrong with the
/// settings; nothing where it is accepted.
pub open spec fn endpoint_answer(
    enabled: bool,
    method: Seq<char>,
    found: Option<(Seq<char>, Seq<char>)>,
    fault: Option<Seq<char>>,
) -> Option<ReplyView> {
    if !enabled {
        Some(plain_reply(404, "CrowdStrike endpoint is disabled"@))
    } else if refusal(method, found) is Some {
        refusal(method, found)
    } else {
        match fault {
            Some(message) => Some(plain_reply(500, message)),
            None => None,
        }
    }
}

/// The reply to a request to the endpoint that is not accepted; nothing where it is.
pub open spec fn endpoint_refusal(
    settings: Option<CrowdStrikeConfig>,
    method: Seq<char>,
    found: Option<(Seq<char>, Seq<char>)>,
) -> Option<ReplyView> {
    match settings {
        Some(s) => endpoint_answer(
            s.enabled,
            method,
            found,
            settings_fault(s.base_url@, s.page_size, s.lookback_days),
        ),
        None => endpoint_answer(false, method, found, None),
    }
}

/// Accepts a request to the endpoint, given its credentials and what is wrong with the settings.
pub fn answer_endpoint(
    enabled: bool,
    method: &str,
    found: Option<(String, String)>,
    fault: Option<String>,
) -> (r: Result<(String, String), Reply>)
    ensures
        match r {
            Ok(pair) => endpoint_answer(
                enabled,
                method@,
                pair_text(found),
                option_text(fault),
            ) is None && pair_text(found) == Some((pair.0@, pair.1@)),
            Err(reply) => endpoint_answer(enabled, method@, pair_text(found), option_text(fault))
                == Some(reply@),
        },
{
    if !enabled {
        return Err(plain_error(404, "CrowdStrike endpoint is disabled"));
    }
    let pair = match answer_request(method, found) {
        Ok(pair) => pair,
        Err(reply) => {
            return Err(reply);
        },
    };
    match fault {
        Some(message) => Err(plain_error(500, message.as_str())),
        None => Ok(pair),
    }
}

/// Accepts a request to the endpoint: where it is enabled, only GET, only with credentials, and
/// only with usable settings. The credentials are the OAuth client and its secret.
pub fn accept_crowdstrike(
    settings: &Option<CrowdStrikeConfig>,
    method: &str,
    authorization: Option<&[u8]>,
) -> (r: Result<(String, String), Reply>)
    ensures
        ({
            let found = basic_credentials(
                match authorization {
                    Some(h) => Some(h@),
                    None => None,
                },
            );
            match r {
                Ok(pair) => endpoint_refusal(*settings, method@, found) is None && found == Some(
                    (pair.0@, pair.1@),
                ),
                Err(reply) => endpoint_refusal(*settings, method@, found) == Some(reply@),
            }
        }),
{
    match settings {
        Some(s) => {
            let fault = match validate(s) {
                Ok(()) => None,
                Err(message) => Some(message),
            };
            answer_endpoint(s.enabled, method, credentials(authorization).ok(), fault)
        },
        None => answer_endpoint(false, method, None, None),
    }
}

// ---------------------------------------------------------------------------------------------
// Requests

/// The URL of a request.
pub open spec fn api_url(base: Seq<char>, path: Seq<char>) -> Result<Seq<char>, FalconError> {
    match url_joined(trimmed_end(base, '/'), path) {
        Ok(url) => Ok(url),
        Err(_) => Err(FalconError::Transport),
    }
}

/// Builds the URL of a request.
pub fn url(base: &str, path: &str) -> (r: Result<String, FalconError>)
    ensures
        match r {
            Ok(text) => api_url(base@, path@) == Ok::<Seq<char>, FalconError>(text@),
            Err(error) => api_url(base@, path@) == Err::<Seq<char>, FalconError>(error),
        },
{
    match join_url(trim_end(base, '/').as_str(), path) {
        Ok(text) => Ok(text),
        Err(_) => Err(FalconError::Transport),
    }
}

/// The token that a document grants.
pub open spec fn granted_token(document: Json) -> Option<Seq<char>> {
    match member_of(document, "access_token"@) {
        Some(Json::Text(token)) => Some(token),
        _ => None,
    }
}

/// What the reply to the request for a token comes to.
pub open spec fn token_result(status: u16, body: Seq<char>) -> Result<Seq<char>, FalconError> {
    if !is_success(status) {
        if status == 401 || status == 403 {
            Err(FalconError::Auth(status))
        } else {
            Err(FalconError::Status(status))
        }
    } else {
        match json_parsed(body) {
            None => Err(FalconError::Decode),
            Some(document) => match granted_token(document) {
                Some(token) => Ok(token),
                None => Err(FalconError::Decode),
            },
        }
    }
}

/// Reads the token that a document grants.
pub fn read_token(document: &serde_json::Value) -> (r: Option<String>)
    ensures
        option_text(r) == granted_token(json(*document)),
{
    match member(document, "access_token") {
        Some(value) => match value.as_str() {
            Some(token) => Some(token.to_owned()),
            None => None,
        },
        None => None,
    }
}

/// Judges the reply to the request for a token.
pub fn judge_token(status: u16, body: &str) -> (r: Result<String, FalconError>)
    ensures
        match r {
            Ok(token) => token_result(status, body@) == Ok::<Seq<char>, FalconError>(token@),
            Err(error) => token_result(status, body@) == Err::<Seq<char>, FalconError>(error),
        },
{
    if status < 200 || 300 <= status {
        return if status == 401 || status == 403 {
            Err(FalconError::Auth(status))
        } else {
            Err(FalconError::Status(status))
        };
    }
    match parse_json(body) {
        Ok(document) => match read_token(&document) {
            Some(token) => Ok(token),
            None => Err(FalconError::Decode),
        },
        Err(_) => Err(FalconError::Decode),
    }
}

/// The token of one client: none at first, and kept once it was granted.
pub struct Session {
    token: Option<String>,
}

impl View for Session {
    type V = Option<Seq<char>>;

    closed spec fn view(&self) -> Option<Seq<char>> {
        option_text(self.token)
    }
}

/// What becomes of a session when a token is needed, given the reply that a request for one would
/// get: whether the request is made, the token or the failure, and the token that is kept.
pub open spec fn token_needed(held: Option<Seq<char>>, status: u16, body: Seq<char>) -> (
    bool,
    Result<Seq<char>, FalconError>,
    Option<Seq<char>>,
) {
    match held {
        Some(token) => (false, Ok(token), held),
        None => match token_result(status, body) {
            Ok(token) => (true, Ok(token), Some(token)),
            Err(error) => (true, Err(error), None),
        },
    }
}

impl Session {
    /// A session without a token.
    pub fn new() -> (r: Session)
        ensures
            r@ is None,
    {
        Session { token: None }
    }

    /// The token that is kept; where there is none, it is to be asked for.
    pub fn token(&self) -> (r: Option<String>)
        ensures
            option_text(r) == self@,
    {
        self.token.clone()
    }

    /// Takes the reply to the request for a token.
    pub fn on_token(&mut self, status: u16, body: &str) -> (r: Result<String, FalconError>)
        requires
            old(self)@ is None,
        ensures
            ({
                let needed = token_needed(old(self)@, status, body@);
                &&& final(self)@ == needed.2
                &&& match r {
                    Ok(token) => needed.1 == Ok::<Seq<char>, FalconError>(token@),
                    Err(error) => needed.1 == Err::<Seq<char>, FalconError>(error),
                }
            }),
    {
        match judge_token(status, body) {
            Ok(token) => {
                self.token = Some(token.clone());
                Ok(token)
            },
            Err(error) => Err(error),
        }
    }
}

/// A token is asked for once: where the request is granted, the token is kept, and whatever a later
/// request would be told, none is made and the same token is used. A request that fails leaves the
/// session without a token.
pub proof fn law_one_token(status: u16, body: Seq<char>, later_status: u16, later_body: Seq<char>)
    ensures
        ({
            let first = token_needed(None, status, body);
            &&& first.0
            &&& first.1 == token_result(status, body)
            &&& first.1 is Err ==> first.2 is None
            &&& first.1 matches Ok(token) ==> first.2 == Some(token) && token_needed(
                first.2,
                later_status,
                later_body,
            ) == (false, Ok::<Seq<char>, FalconError>(token), first.2)
        }),
{
}

/// What the reply to a request comes to.
pub enum Verdict {
    /// The request is to be sent again after this many seconds.
    Wait(u64),
    /// The request failed.
    Fail(FalconError),
    /// The request was answered.
    Done(serde_json::Value),
}

/// What the reply to a request comes to, by its contents.
pub enum VerdictView {
    Wait(u64),
    Fail(FalconError),
    Done(Json),
}

impl View for Verdict {
    type V = VerdictView;

    open spec fn view(&self) -> VerdictView {
        match self {
            Verdict::Wait(seconds) => VerdictView::Wait(*seconds),
            Verdict::Fail(error) => VerdictView::Fail(*error),
            Verdict::Done(document) => VerdictView::Done(json(*document)),
        }
    }
}

/// The seconds that a `Retry-After` header asks for: one where it holds no number, and never more
/// than a minute.
pub open spec fn pause(retry_after: Option<Seq<u8>>) -> u64 {
    let asked = match retry_after {
        Some(value) => if is_visible(value) {
            match parsed_number(ascii_text(value)) {
                Some(n) => n,
                None => 1,
            }
        } else {
            1
        },
        None => 1,
    };
    if asked < 60 {
        asked
    } else {
        60
    }
}

/// What the reply to an attempt comes to.
pub open spec fn verdict(
    attempt: u32,
    retries: u32,
    status: u16,
    retry_after: Option<Seq<u8>>,
    body: Seq<char>,
) -> VerdictView {
    if status == 429 && attempt < retries {
        VerdictView::Wait(pause(retry_after))
    } else if !is_success(status) {
        VerdictView::Fail(FalconError::Status(status))
    } else {
        match json_parsed(body) {
            Some(document) => VerdictView::Done(document),
            None => VerdictView::Fail(FalconError::Decode),
        }
    }
}

/// Reads the pause that a `Retry-After` header asks for.
pub fn read_pause(retry_after: Option<&[u8]>) -> (r: u64)
    ensures
        r == pause(
            match retry_after {
                Some(h) => Some(h@),
                None => None,
            },
        ),
{
    let asked: u64 = match retry_after {
        Some(value) => match value_text(value) {
            Some(text) => match parse_number(text.as_str()) {
                Some(n) => n,
                None => 1,
            },
            None => 1,
        },
        None => 1,
    };
    if asked < 60 {
        asked
    } else {
        60
    }
}

/// Judges the reply to an attempt; attempts are counted from zero.
pub fn judge_reply(
    attempt: u32,
    retries: u32,
    status: u16,
    retry_after: Option<&[u8]>,
    body: &str,
) -> (r: Verdict)
    ensures
        r@ == verdict(
            attempt,
            retries,
            status,
            match retry_after {
                Some(h) => Some(h@),
                None => None,
            },
            body@,
        ),
{
    if status == 429 && attempt < retries {
        return Verdict::Wait(read_pause(retry_after));
    }
    if status < 200 || 300 <= status {
        return Verdict::Fail(FalconError::Status(status));
    }
    match parse_json(body) {
        Ok(document) => Verdict::Done(document),
        Err(_) => Verdict::Fail(FalconError::Decode),
    }
}

/// The attempts at one request: how many replies asked for another, and how often that is granted.
pub struct Attempts {
    attempt: u32,
    retries: u32,
}

impl View for Attempts {
    type V = (u32, u32);

    closed spec fn view(&self) -> (u32, u32) {
        (self.attempt, self.retries)
    }
}

impl Attempts {
    /// A request that was not sent yet.
    pub fn new(retries: u32) -> (r: Attempts)
        ensures
            r@ == (0u32, retries),
    {
        Attempts { attempt: 0, retries }
    }

    /// Takes the reply to an attempt. Where it is to wait, the request is sent again.
    pub fn on_reply(&mut self, status: u16, retry_after: Option<&[u8]>, body: &str) -> (r: Verdict)
        ensures
            r@ == verdict(
                old(self)@.0,
                old(self)@.1,
                status,
                match retry_after {
                    Some(h) => Some(h@),
                    None => None,
                },
                body@,
            ),
            final(self)@.0 == old(self)@.0 + (if r@ is Wait {
                1int
            } else {
                0
            }),
            final(self)@.1 == old(self)@.1,
    {
        let r = judge_reply(self.attempt, self.retries, status, retry_after, body);
        match &r {
            Verdict::Wait(_) => {
                self.attempt += 1;
            },
            _ => {},
        }
        r
    }
}

/// A reply to an attempt: its status, its `Retry-After` header and its body.
pub struct Answer {
    pub status: u16,
    pub retry_after: Option<Seq<u8>>,
    pub body: Seq<char>,
}

/// What a request comes to from an attempt on, given the replies to all attempts: how often it was
/// sent, and the last verdict.
pub open spec fn exchange(replies: Seq<Answer>, attempt: u32, retries: u32) -> (nat, VerdictView)
    decreases retries - attempt,
{
    let reply = replies[attempt as int];
    let found = verdict(attempt, retries, reply.status, reply.retry_after, reply.body);
    if found is Wait && attempt < retries {
        exchange(replies, (attempt + 1) as u32, retries)
    } else {
        ((attempt + 1) as nat, found)
    }
}

/// Whether the first so many replies all say that there were too many requests.
pub open spec fn all_limited(replies: Seq<Answer>, count: int) -> bool {
    count <= replies.len() && forall|i: int| 0 <= i < count ==> (#[trigger] replies[i]).status == 429
}

proof fn lemma_exchange_goes_on(replies: Seq<Answer>, attempt: u32, retries: u32)
    requires
        attempt <= retries,
        all_limited(replies, attempt as int),
    ensures
        exchange(replies, 0, retries) == exchange(replies, attempt, retries),
    decreases attempt,
{
    if attempt > 0 {
        lemma_exchange_goes_on(replies, (attempt - 1) as u32, retries);
        assert(replies[attempt - 1].status == 429);
    }
}

/// A request is sent until a reply says anything but that there were too many requests. Where the
/// first such reply is one of those to the first sending and the retries, the request is sent just
/// so often, and what that reply comes to is the result. Where there is none among them, the request
/// is sent once and once for each retry, and fails for too many requests.
pub proof fn law_retries(replies: Seq<Answer>, retries: u32, sends: nat)
    ensures
        1 <= sends <= retries + 1 && sends <= replies.len() && all_limited(replies, sends - 1)
            && replies[sends - 1].status != 429 ==> ({
            let last = replies[sends - 1];
            let found = verdict(
                (sends - 1) as u32,
                retries,
                last.status,
                last.retry_after,
                last.body,
            );
            exchange(replies, 0, retries) == (sends, found) && !(found is Wait)
        }),
        all_limited(replies, retries + 1) ==> exchange(replies, 0, retries) == (
            (retries + 1) as nat,
            VerdictView::Fail(FalconError::Status(429)),
        ),
{
    if 1 <= sends <= retries + 1 && all_limited(replies, sends - 1) {
        lemma_exchange_goes_on(replies, (sends - 1) as u32, retries);
    }
    if all_limited(replies, retries + 1) {
        lemma_exchange_goes_on(replies, retries, retries);
        assert(replies[retries as int].status == 429);
    }
}

/// A request is sent again only while retries are left, and only after a pause of at most a
/// minute; a rate limit behind the last retry is a failure.
pub proof fn law_retries_are_bounded(
    attempt: u32,
    retries: u32,
    status: u16,
    retry_after: Option<Seq<u8>>,
    body: Seq<char>,
)
    ensures
        verdict(attempt, retries, status, retry_after, body) matches VerdictView::Wait(seconds)
            ==> attempt < retries && seconds <= 60 && status == 429,
        attempt >= retries && status == 429 ==> verdict(attempt, retries, status, retry_after, body)
            == VerdictView::Fail(FalconError::Status(429)),
{
}

/// Whether an optional API is available, by the reply to a probe: a scope that is missing makes it
/// unavailable, and any other failure is one.
pub open spec fn availability(reply: Result<Json, FalconError>) -> Result<bool, FalconError> {
    match reply {
        Ok(_) => Ok(true),
        Err(FalconError::Status(status)) => if status == 400 || status == 403 || status == 404 {
            Ok(false)
        } else {
            Err(FalconError::Status(status))
        },
        Err(error) => Err(error),
    }
}

/// The document of a reply.
pub open spec fn reply_json(reply: Result<serde_json::Value, FalconError>) -> Result<
    Json,
    FalconError,
> {
    match reply {
        Ok(document) => Ok(json(document)),
        Err(error) => Err(error),
    }
}

/// Decides whether an optional API is available.
pub fn judge_probe(reply: &Result<serde_json::Value, FalconError>) -> (r: Result<
    bool,
    FalconError,
>)
    ensures
        r == availability(reply_json(*reply)),
{
    match reply {
        Ok(_) => Ok(true),
        Err(FalconError::Status(status)) => if *status == 400 || *status == 403 || *status == 404 {
            Ok(false)
        } else {
            Err(FalconError::Status(*status))
        },
        Err(error) => Err(*error),
    }
}

// ---------------------------------------------------------------------------------------------
// Failures

/// The reply to a request that failed.
pub open spec fn failure_reply(error: FalconError) -> ReplyView {
    match error {
        FalconError::Auth(status) => plain_reply(
            status,
            "CrowdStrike rejected client credentials"@,
        ),
        FalconError::Status(status) => plain_reply(
            if 400 <= status < 500 {
                status
            } else {
                502
            },
            "CrowdStrike request failed"@,
        ),
        _ => plain_reply(502, "CrowdStrike request failed"@),
    }
}

/// The reply to a request that failed.
pub fn error_response(error: FalconError) -> (r: Reply)
    ensures
        r@ == failure_reply(error),
{
    match error {
        FalconError::Auth(status) => plain_error(
            status,
            "CrowdStrike rejected client credentials",
        ),
        FalconError::Status(status) => plain_error(
            if 400 <= status && status < 500 {
                status
            } else {
                502
            },
            "CrowdStrike request failed",
        ),
        FalconError::Transport => plain_error(502, "CrowdStrike request failed"),
        FalconError::Decode => plain_error(502, "CrowdStrike request failed"),
    }
}

} // verus!
