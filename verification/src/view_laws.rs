//! What the models of configurations, failures and replies hold of the values that they stand for.
use crate::auth::pair_text;
use crate::config::{mode_name, Pagination, PaginationConfig};
use crate::error::{Failure, ProxyError, Reply};
use crate::falcon::api::{reply_json, FalconError, Verdict, VerdictView};
use crate::falcon::collect::{call_view, Call};
use crate::falcon::data::{documents, flags, lists, summaries, Data};
use crate::falcon::device::Exposure;
use crate::falcon::paging::{Fetcher, Pager};
use crate::falcon::score::Summary;
use crate::json::{json, jsons, Json};
use crate::query::{option_text, pair_texts, result_texts, url_result};
use crate::stream::{Outcome, OutcomeView, Step};
use crate::text::{concatenated, texts};
use vstd::prelude::*;

verus! {

/// A pagination is modelled by the texts and numbers of its configuration as they are, and named for
/// a log by its mode.
pub proof fn law_pagination_model(config: PaginationConfig)
    ensures
        config matches PaginationConfig::Offset {
            offset_parameter,
            page_size_parameter,
            start_offset,
            page_size,
        } ==> (config@ matches Pagination::Offset {
            offset_parameter: position,
            page_size_parameter: sizes,
            start,
            size,
        } && position == offset_parameter@ && sizes == page_size_parameter@ && start == start_offset
            && size == page_size && mode_name(config@) == "offset"@),
        config matches PaginationConfig::Page {
            page_parameter,
            page_size_parameter,
            start_page,
            page_size,
        } ==> (config@ matches Pagination::Page {
            page_parameter: position,
            page_size_parameter: sizes,
            start,
            size,
        } && position == page_parameter@ && sizes == page_size_parameter@ && start == start_page
            && size == page_size && mode_name(config@) == "page"@),
        config matches PaginationConfig::NextLink { next_link_path } ==> (
        config@ matches Pagination::NextLink { path } && path == next_link_path@ && mode_name(
            config@,
        ) == "next_link"@),
{
}

/// A failure is modelled by everything that it says but the error of the JSON parser.
pub proof fn law_failure_model(error: ProxyError)
    ensures
        match error {
            ProxyError::Config(message) => error@ == Failure::Config(message@),
            ProxyError::Upstream(message) => error@ == Failure::Upstream(message@),
            ProxyError::UpstreamStatus { status, body } => error@ == (Failure::UpstreamStatus {
                status,
                body: body@,
            }),
            ProxyError::Authentication { status } => error@ == (Failure::Authentication { status }),
            ProxyError::Json(_) => error@ is Json,
            ProxyError::MissingArray(pointer) => error@ == Failure::MissingArray(pointer@),
            ProxyError::MissingNext(pointer) => error@ == Failure::MissingNext(pointer@),
            ProxyError::ForeignNext(pointer) => error@ == Failure::ForeignNext(pointer@),
        },
{
}

/// A reply is modelled by its status and its texts.
pub proof fn law_reply_model(reply: Reply)
    ensures
        reply@.status == reply.status,
        reply@.content_type == reply.content_type@,
        reply@.body == reply.body@,
        reply.challenge is Some <==> reply@.challenge is Some,
        reply.challenge matches Some(challenge) ==> reply@.challenge == Some(challenge@),
{
}

/// A step is modelled by the texts that are sent, one after the other, and by how the stream goes on.
pub proof fn law_step_model(step: Step, i: int)
    ensures
        step@.chunks.len() == step.chunks@.len(),
        0 <= i < step.chunks@.len() ==> step@.chunks[i] == step.chunks@[i]@,
        step.outcome is Continue <==> step@.outcome is Continue,
        step.outcome is Complete <==> step@.outcome is Complete,
        step.outcome matches Outcome::Fail(error) ==> step@.outcome == OutcomeView::Fail(error@),
        step.closed_by is None <==> step@.closed_by is None,
        step.closed_by matches Some(error) ==> step@.closed_by == Some(error@),
{
}

/// An exposure is modelled by its numbers as they are.
pub proof fn law_exposure_model(e: Exposure)
    ensures
        e@.zta_points == e.zta_points,
        e@.alerts_critical == e.alerts_critical,
        e@.alerts_high == e.alerts_high,
        e@.detections_critical == e.detections_critical,
        e@.detections_high == e.detections_high,
        e@.incidents == e.incidents,
        e@.vulns_critical == e.vulns_critical,
        e@.vulns_high == e.vulns_high,
        e@.max_cvss == e.max_cvss,
{
}

/// A request to the Falcon API is modelled by its method, path, parameters and body.
pub proof fn law_call_model(call: Call, i: int)
    ensures
        call@.post == call.post,
        call@.path == call.path@,
        call@.query == pair_texts(call.query@),
        call@.query.len() == call.query@.len(),
        0 <= i < call.query@.len() ==> call@.query[i] == (
            call.query@[i].0@,
            call.query@[i].1@,
        ),
        call.body is None <==> call@.body is None,
        call.body matches Some(body) ==> call@.body == Some(json(body)),
{
}

/// A verdict is modelled by its pause, its failure or its document.
pub proof fn law_verdict_model(verdict: Verdict)
    ensures
        match verdict {
            Verdict::Wait(seconds) => verdict@ == VerdictView::Wait(seconds),
            Verdict::Fail(error) => verdict@ == VerdictView::Fail(error),
            Verdict::Done(document) => verdict@ == VerdictView::Done(json(document)),
        },
{
}

/// Pages and batches are modelled by their texts, documents and positions as they are.
pub proof fn law_paging_model(pager: Pager, fetcher: Fetcher)
    ensures
        pager@.size == pager.size && pager@.offset == pager.offset && pager@.done == pager.done,
        pager@.ids == texts(pager.ids@),
        pager.filter is None <==> pager@.filter is None,
        pager.filter matches Some(filter) ==> pager@.filter == Some(filter@),
        fetcher@.ids == texts(fetcher.ids@) && fetcher@.size == fetcher.size && fetcher@.at
            == fetcher.at,
        fetcher@.found == jsons(fetcher.found@),
{
}

/// A summary is modelled by its counts, the bits of its highest score, and its names.
pub proof fn law_summary_model(summary: Summary)
    ensures
        summary@.critical == summary.critical && summary@.high == summary.high,
        summary@.medium == summary.medium && summary@.low == summary.low,
        summary@.total == summary.total && summary@.max == summary.max_bits,
        summary@.cves == texts(summary.cves@),
{
}

/// What was collected is modelled by its lists and tables, each by its own.
pub proof fn law_data_model(data: Data, key: Seq<char>, i: int)
    ensures
        data@.devices == jsons(data.devices@) && data@.unmanaged == jsons(data.unmanaged@),
        data@.available == flags(data.available@) && data@.refreshed == data.refreshed@,
        0 <= i < data.available@.len() ==> data@.available[i] == (
            data.available@[i].0@,
            data.available@[i].1,
        ),
        data@.zta == documents(data.zta@) && data@.prevention == documents(data.prevention@),
        data@.sensor == documents(data.sensor@) && data@.groups == documents(data.groups@),
        data@.alerts == lists(data.alerts@) && data@.detections == lists(data.detections@),
        data@.incidents == lists(data.incidents@) && data@.vulns == summaries(data.vulns@),
        data@.zta.dom().contains(key) <==> data.zta@.dom().contains(key),
        data.zta@.dom().contains(key) ==> data@.zta[key] == json(data.zta@[key]),
        data@.alerts.dom().contains(key) <==> data.alerts@.dom().contains(key),
        data.alerts@.dom().contains(key) ==> data@.alerts[key] == jsons(data.alerts@[key]@),
        data@.vulns.dom().contains(key) <==> data.vulns@.dom().contains(key),
        data.vulns@.dom().contains(key) ==> data@.vulns[key] == data.vulns@[key]@,
{
}

/// Texts, documents and parameters are modelled one by one, in order.
pub proof fn law_list_models(
    names: Seq<String>,
    values: Seq<serde_json::Value>,
    pairs: Seq<(String, String)>,
    parts: Seq<Seq<char>>,
    part: Seq<char>,
    i: int,
)
    ensures
        texts(names).len() == names.len(),
        0 <= i < names.len() ==> texts(names)[i] == names[i]@,
        jsons(values).len() == values.len(),
        0 <= i < values.len() ==> jsons(values)[i] == json(values[i]),
        pair_texts(pairs).len() == pairs.len(),
        0 <= i < pairs.len() ==> pair_texts(pairs)[i] == (pairs[i].0@, pairs[i].1@),
        concatenated(Seq::empty()) == Seq::<char>::empty(),
        concatenated(parts.push(part)) == concatenated(parts) + part,
{
    assert(parts.push(part).drop_last() == parts);
}

/// What may be missing is modelled by its text or document where it is there, and by nothing where it
/// is not; a result by its text or its failure.
pub proof fn law_optional_models(
    text: Option<String>,
    pair: Option<(String, String)>,
    call: Option<Call>,
    result: Result<String, String>,
    url: Result<String, ProxyError>,
    reply: Result<serde_json::Value, FalconError>,
)
    ensures
        text is None <==> option_text(text) is None,
        text matches Some(t) ==> option_text(text) == Some(t@),
        pair is None <==> pair_text(pair) is None,
        pair matches Some(p) ==> pair_text(pair) == Some((p.0@, p.1@)),
        call is None <==> call_view(call) is None,
        call matches Some(c) ==> call_view(call) == Some(c@),
        result matches Ok(t) ==> result_texts(result) == Ok::<Seq<char>, Seq<char>>(t@),
        result matches Err(t) ==> result_texts(result) == Err::<Seq<char>, Seq<char>>(t@),
        url matches Ok(t) ==> url_result(url) == Ok::<Seq<char>, Failure>(t@),
        url matches Err(error) ==> url_result(url) == Err::<Seq<char>, Failure>(error@),
        reply matches Ok(document) ==> reply_json(reply) == Ok::<Json, FalconError>(
            json(document),
        ),
        reply matches Err(error) ==> reply_json(reply) == Err::<Json, FalconError>(error),
{
}

} // verus!
