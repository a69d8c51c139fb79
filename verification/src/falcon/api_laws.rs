//! What holds of every request to the Falcon endpoint and of every request that it makes.
use crate::falcon::api::{
    api_url, availability, endpoint_answer, endpoint_refusal, failure_reply, fault_of,
    granted_token, pause, settings_fault, token_result, verdict, FalconError, VerdictView,
};
use crate::config::CrowdStrikeConfig;
use crate::falcon::clock::{after_filter, days_before, has_date, or_empty, reaches_back};
use crate::falcon::stage::{devices_filter, in_quotes};
use crate::json::{json_parsed, member_of, Json};
use crate::query::{url_host, url_joined, url_path, url_scheme};
use crate::text::{law_trimmed_end, parsed_number, separated};
use vstd::prelude::*;

verus! {

/// Settings are usable exactly where their base URL is an HTTPS URL with a host, the page size is
/// from one to a thousand, and the lookback is not negative. Otherwise the first of these that fails
/// says what is wrong.
pub proof fn law_settings(base_url: Seq<char>, page_size: u64, lookback_days: i64)
    ensures
        ({
            let fault = settings_fault(base_url, page_size, lookback_days);
            &&& fault is None <==> {
                &&& url_path(base_url) is Ok
                &&& url_scheme(base_url) == Some("https"@)
                &&& url_host(base_url) is Some
                &&& 1 <= page_size <= 1000
                &&& lookback_days >= 0
            }
            &&& url_path(base_url) matches Err(message) ==> fault == Some(message)
            &&& url_path(base_url) is Ok && (url_scheme(base_url) != Some("https"@) || url_host(
                base_url,
            ) is None) ==> fault == Some("crowdstrike.base_url must be an HTTPS URL"@)
            &&& url_path(base_url) is Ok && url_scheme(base_url) == Some("https"@) && url_host(
                base_url,
            ) is Some ==> ({
                &&& !(1 <= page_size <= 1000) ==> fault == Some(
                    "crowdstrike.page_size must be 1 to 1000"@,
                )
                &&& 1 <= page_size <= 1000 && lookback_days < 0 ==> fault == Some(
                    "crowdstrike.lookback_days must not be negative"@,
                )
            })
        }),
{
}

/// What is wrong with settings comes of what their base URL holds and of their numbers alone.
pub proof fn law_settings_by_parts(
    path: Result<Seq<char>, Seq<char>>,
    scheme: Option<Seq<char>>,
    host: Option<Seq<char>>,
    page_size: u64,
    lookback_days: i64,
)
    ensures
        fault_of(path, scheme, host, page_size, lookback_days) is None <==> path is Ok && scheme
            == Some("https"@) && host is Some && 1 <= page_size <= 1000 && lookback_days >= 0,
{
}

/// The endpoint accepts a request exactly where it is enabled, its settings are usable, and the
/// request is a GET with credentials. A disabled endpoint is not there, whatever is asked; then the
/// method, the credentials and the settings are looked at in this order.
pub proof fn law_endpoint(
    enabled: bool,
    method: Seq<char>,
    found: Option<(Seq<char>, Seq<char>)>,
    fault: Option<Seq<char>>,
)
    ensures
        ({
            let answer = endpoint_answer(enabled, method, found, fault);
            &&& answer is None <==> enabled && method == "GET"@ && found is Some && fault is None
            &&& !enabled ==> (answer matches Some(reply) && reply.status == 404 && reply.body
                == "CrowdStrike endpoint is disabled"@)
            &&& enabled && method != "GET"@ ==> (answer matches Some(reply) && reply.status == 405)
            &&& enabled && method == "GET"@ && found is None ==> (answer matches Some(reply)
                && reply.status == 401 && reply.challenge is Some)
            &&& enabled && method == "GET"@ && found is Some ==> (fault matches Some(message) ==> (
            answer matches Some(reply) && reply.status == 500 && reply.body == message))
        }),
{
}

/// An endpoint that is not configured is disabled.
pub proof fn law_configured(
    settings: Option<CrowdStrikeConfig>,
    method: Seq<char>,
    found: Option<(Seq<char>, Seq<char>)>,
)
    ensures
        endpoint_refusal(settings, method, found) == (match settings {
            Some(s) => endpoint_answer(
                s.enabled,
                method,
                found,
                settings_fault(s.base_url@, s.page_size, s.lookback_days),
            ),
            None => endpoint_answer(false, method, found, None),
        }),
        settings is None ==> (endpoint_refusal(settings, method, found) matches Some(reply)
            && reply.status == 404),
{
}

/// What a client is told of a failure of the Falcon API: a rejection of the credentials with its own
/// status, another status of the client with that status, and anything else as one of the upstream.
pub proof fn law_falcon_failure(error: FalconError)
    ensures
        ({
            let reply = failure_reply(error);
            &&& reply.content_type == "text/plain"@ && reply.challenge is None
            &&& error matches FalconError::Auth(status) ==> reply.status == status && reply.body
                == "CrowdStrike rejected client credentials"@
            &&& !(error is Auth) ==> reply.body == "CrowdStrike request failed"@
            &&& error matches FalconError::Status(status) ==> reply.status == (if 400 <= status
                <= 499 {
                status
            } else {
                502
            })
            &&& error is Transport || error is Decode ==> reply.status == 502
        }),
{
}

/// A request goes to the base URL with its path, however many slashes the base URL ends with.
pub proof fn law_api_url(base: Seq<char>, slashes: nat, path: Seq<char>)
    requires
        base.len() == 0 || base.last() != '/',
    ensures
        api_url(base + Seq::new(slashes, |i: int| '/'), path) == (match url_joined(base, path) {
            Ok(url) => Ok::<Seq<char>, FalconError>(url),
            Err(_) => Err(FalconError::Transport),
        }),
{
    law_trimmed_end(base, slashes, '/');
}

/// A token is granted exactly where the status reports success and the body is a document with the
/// token as a text; it is that text. A rejection of the credentials is told apart from any other
/// status, and from a body that cannot be used.
pub proof fn law_token(status: u16, body: Seq<char>, token: Seq<char>)
    ensures
        ({
            let result = token_result(status, body);
            &&& result == Ok::<Seq<char>, FalconError>(token) <==> 200 <= status <= 299 && (
            json_parsed(body) matches Some(document) && member_of(document, "access_token"@) == Some(
                Json::Text(token),
            ))
            &&& status == 401 || status == 403 ==> result == Err::<Seq<char>, FalconError>(
                FalconError::Auth(status),
            )
            &&& (status < 200 || status > 299) && status != 401 && status != 403 ==> result == Err::<
                Seq<char>,
                FalconError,
            >(FalconError::Status(status))
            &&& 200 <= status <= 299 && result is Err ==> result == Err::<Seq<char>, FalconError>(
                FalconError::Decode,
            )
        }),
        forall|document: Json| #[trigger]
            granted_token(document) == Some(token) <==> member_of(document, "access_token"@)
                == Some(Json::Text(token)),
{
}

/// The pause before another attempt is the number of seconds that the header holds, a minute at
/// most, and a second where it holds none.
pub proof fn law_pause(header: Seq<u8>, n: u64)
    ensures
        pause(None) == 1,
        ({
            let text = Seq::new(header.len(), |i: int| header[i] as char);
            let visible = forall|i: int|
                0 <= i < header.len() ==> (32 <= #[trigger] header[i] <= 126 || header[i] == 9);
            &&& visible && parsed_number(text) == Some(n) ==> pause(Some(header)) == (if n < 60 {
                n
            } else {
                60
            })
            &&& !visible || parsed_number(text) is None ==> pause(Some(header)) == 1
        }),
{
    let text = Seq::new(header.len(), |i: int| header[i] as char);
    assert(crate::headers::ascii_text(header) =~= text);
    let visible = forall|i: int|
        0 <= i < header.len() ==> (32 <= #[trigger] header[i] <= 126 || header[i] == 9);
    if visible {
        assert forall|i: int| 0 <= i < header.len() implies 32 <= #[trigger] header[i] < 127
            || header[i] == 9 by {}
        assert(crate::headers::is_visible(header));
    }
    if crate::headers::is_visible(header) {
        assert forall|i: int| 0 <= i < header.len() implies (32 <= #[trigger] header[i] <= 126
            || header[i] == 9) by {}
        assert(visible);
    }
}

/// An attempt is answered exactly where the status reports success and the body is a document; too
/// many requests are waited for while retries are left; anything else is a failure.
pub proof fn law_verdict(
    attempt: u32,
    retries: u32,
    status: u16,
    retry_after: Option<Seq<u8>>,
    body: Seq<char>,
)
    ensures
        ({
            let found = verdict(attempt, retries, status, retry_after, body);
            &&& found is Wait <==> status == 429 && attempt < retries
            &&& found matches VerdictView::Wait(seconds) ==> seconds == pause(retry_after)
            &&& 200 <= status <= 299 ==> (match json_parsed(body) {
                Some(document) => found == VerdictView::Done(document),
                None => found == VerdictView::Fail(FalconError::Decode),
            })
            &&& (status < 200 || status > 299) && !(found is Wait) ==> found == VerdictView::Fail(
                FalconError::Status(status),
            )
        }),
{
}

/// An API is available where its probe is answered, not available where the answer is 400, 403 or
/// 404, and anything else is a failure.
pub proof fn law_available(reply: Result<Json, FalconError>)
    ensures
        availability(reply) == Ok::<bool, FalconError>(true) <==> reply is Ok,
        availability(reply) == Ok::<bool, FalconError>(false) <==> (reply matches Err(error) && (
        error == FalconError::Status(400) || error == FalconError::Status(403) || error
            == FalconError::Status(404))),
        availability(reply) matches Err(error) ==> reply == Err::<Json, FalconError>(error),
{
}

// ---------------------------------------------------------------------------------------------
// Times and filters

/// The lookback goes back so many days of 86,400 seconds. It has a date between the start of the
/// year -9999 and the end of the year 9999.
pub proof fn law_lookback(now: i128, days: i64)
    requires
        reaches_back(now, days),
    ensures
        days_before(now, days) + days * 86_400_000_000_000 == now,
        -377_705_116_800_000_000_000 <= days_before(now, days) <= 253_402_300_799_999_999_999,
{
}

/// An instant has a date exactly between the start of the year -9999 and the end of the year 9999.
pub proof fn law_dates(nanos: int, now: i128, days: i64)
    ensures
        has_date(nanos) <==> -377_705_116_800_000_000_000 <= nanos
            <= 253_402_300_799_999_999_999,
        reaches_back(now, days) <==> -377_705_116_800_000_000_000 <= now
            <= 253_402_300_799_999_999_999 && -377_705_116_800_000_000_000 <= now - days
            * 86_400_000_000_000 <= 253_402_300_799_999_999_999,
        or_empty(None) == Seq::<char>::empty(),
        forall|text: Seq<char>| #[trigger] or_empty(Some(text)) == text,
{
}

/// A filter for what came after a time names the field, and the time in quotation marks.
pub proof fn law_after_filter(field: Seq<char>, time: Seq<char>)
    ensures
        after_filter(field, time) == field + seq![':', '>', '"'] + time + seq!['"'],
{
    reveal_strlit(":>\"");
    reveal_strlit("\"");
    assert(":>\""@ =~= seq![':', '>', '"']);
    assert("\""@ =~= seq!['"']);
}

/// A filter for open vulnerabilities names every device in quotation marks, with commas between
/// them.
pub proof fn law_devices_filter(ids: Seq<Seq<char>>, i: int)
    ensures
        devices_filter(ids) == "aid:["@ + separated(in_quotes(ids), ","@) + "]+status: \"open\""@,
        in_quotes(ids).len() == ids.len(),
        0 <= i < ids.len() ==> in_quotes(ids)[i] == seq!['"'] + ids[i] + seq!['"'],
{
    reveal_strlit("\"");
    assert("\""@ =~= seq!['"']);
}

} // verus!
