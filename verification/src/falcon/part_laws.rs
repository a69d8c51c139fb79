//! What holds of every part of a collection: what it asks for, and what becomes of the replies.
use crate::config::CrowdStrikeFeatures;
use crate::falcon::api::FalconError;
use crate::falcon::collect::{
    begun, call_of, collection_start, devices_begun, fetch_call, found_taken, ids_query,
    lemma_begun_whatever_phase, reply_taken, CallView, CollectorView, PhaseView,
};
use crate::falcon::collect_laws::{
    collected_from, law_all_wanted_parts_are_reported, names_in, wanted_names, Arrival,
};
use crate::falcon::data::DataView;
use crate::falcon::device::texts_among;
use crate::falcon::paging::{
    after_batches, after_pages, batch_of, fetched, first_batch, first_page, ids_on, law_batches,
    next_batch, next_page, page_ids, page_query, resources_on, stated_total, FetcherView, PagerView,
};
use crate::falcon::record::resources_of;
use crate::falcon::stage::{api_name, devices_filter, following, is_enabled, preceding, Stage};
use crate::json::{at_pointer, member_of, Json};
use crate::text::{decimal_text, law_decimal_reads_back};
use vstd::prelude::*;

verus! {

// ---------------------------------------------------------------------------------------------
// Pages and batches

/// The resources of a reply are the items of its member of that name; none where that is no array.
pub proof fn law_resources(document: Json)
    ensures
        resources_of(document) == (match member_of(document, "resources"@) {
            Some(Json::Array(items)) => items,
            _ => Seq::empty(),
        }),
        page_ids(document) == texts_among(resources_of(document)),
{
}

/// The query of a page asks for so many from so many on, behind the filter where there is one.
pub proof fn law_page_query(p: PagerView)
    ensures
        p.filter is None ==> page_query(p) == seq![
            ("limit"@, decimal_text(p.size as nat)),
            ("offset"@, decimal_text(p.offset as nat)),
        ],
        p.filter matches Some(filter) ==> page_query(p) == seq![
            ("filter"@, filter),
            ("limit"@, decimal_text(p.size as nat)),
            ("offset"@, decimal_text(p.offset as nat)),
        ],
{
    if let Some(filter) = p.filter {
        assert(page_query(p) =~= seq![
            ("filter"@, filter),
            ("limit"@, decimal_text(p.size as nat)),
            ("offset"@, decimal_text(p.offset as nat)),
        ]);
    }
}

/// The total of a list is the number at its place in a page.
pub proof fn law_stated_total(document: Json, n: u64)
    ensures
        at_pointer(document, "/meta/pagination/total"@) == Some(Json::Number(decimal_text(n as nat)))
            ==> stated_total(document) == Some(n as nat),
        at_pointer(document, "/meta/pagination/total"@) is None ==> stated_total(document) is None,
        stated_total(document) == Some(n as nat) ==> at_pointer(
            document,
            "/meta/pagination/total"@,
        ) == Some(Json::Number(decimal_text(n as nat))),
{
    if let Some(value) = at_pointer(document, "/meta/pagination/total"@) {
        if exists|m: u64| value == Json::Number(#[trigger] decimal_text(m as nat)) {
            let m = choose|m: u64| value == Json::Number(#[trigger] decimal_text(m as nat));
            law_decimal_reads_back(m);
            law_decimal_reads_back(n);
        }
    }
}

/// A page adds its identifiers to those before, in order, and the next one is asked for one page size
/// further on, or at the largest number. A list ends with an empty page, with the page that reaches the
/// total, or, where no total is given, with a page that holds no more than was asked for.
pub proof fn law_next_page(p: PagerView, document: Json)
    ensures
        ({
            let next = next_page(p, document);
            let found = texts_among(resources_of(document));
            let further = if p.offset + p.size < u64::MAX {
                p.offset + p.size
            } else {
                u64::MAX as int
            };
            let reached = if p.offset + found.len() < u64::MAX {
                p.offset + found.len()
            } else {
                u64::MAX as int
            };
            &&& next.filter == p.filter && next.size == p.size
            &&& next.offset == further
            &&& next.ids == p.ids + found
            &&& next.done <==> found.len() == 0 || (match stated_total(document) {
                Some(total) => further >= total,
                None => further >= reached,
            })
        }),
{
}

/// Before the first page nothing is skipped and nothing was found.
pub proof fn law_first_page(filter: Option<Seq<char>>, size: u64)
    ensures
        ({
            let p = first_page(filter, size);
            p.filter == filter && p.size == size && p.offset == 0 && p.ids.len() == 0 && !p.done
        }),
{
}

/// The identifiers on pages are the texts among the resources of each, page by page.
pub proof fn law_ids_on(documents: Seq<Json>)
    ensures
        ids_on(documents) == documents.map_values(
            |d: Json| texts_among(resources_of(d)),
        ).flatten(),
    decreases documents.len(),
{
    let f = |d: Json| texts_among(resources_of(d));
    let all = documents.map_values(f);
    if documents.len() > 0 {
        let front = documents.drop_last();
        law_ids_on(front);
        front.map_values(f).lemma_flatten_push(f(documents.last()));
        assert(all =~= front.map_values(f).push(f(documents.last())));
    } else {
        assert(all =~= Seq::empty());
    }
}

/// The documents of batches are the resources of each reply, batch by batch.
pub proof fn law_resources_on(documents: Seq<Json>)
    ensures
        resources_on(documents) == documents.map_values(|d: Json| resources_of(d)).flatten(),
    decreases documents.len(),
{
    let f = |d: Json| resources_of(d);
    let all = documents.map_values(f);
    if documents.len() > 0 {
        let front = documents.drop_last();
        law_resources_on(front);
        front.map_values(f).lemma_flatten_push(f(documents.last()));
        assert(all =~= front.map_values(f).push(f(documents.last())));
    } else {
        assert(all =~= Seq::empty());
    }
}

// ---------------------------------------------------------------------------------------------
// Requests

/// The identifiers that a request names: those in the only member of its body, or in its query.
pub open spec fn named_in(call: CallView) -> Seq<Seq<char>> {
    match call.body {
        Some(body) => match body {
            Json::Object(members) => match members[0].1 {
                Json::Array(items) => items.map_values(|item: Json| item->Text_0),
                _ => Seq::empty(),
            },
            _ => Seq::empty(),
        },
        None => call.query.filter(|pair: (Seq<char>, Seq<char>)| pair.0 == "ids"@).map_values(
            |pair: (Seq<char>, Seq<char>)| pair.1,
        ),
    }
}

proof fn lemma_named_in_query(ids: Seq<Seq<char>>)
    ensures
        ids_query(ids).filter(|pair: (Seq<char>, Seq<char>)| pair.0 == "ids"@) == ids_query(ids),
    decreases ids.len(),
{
    reveal(Seq::filter);
    if ids.len() > 0 {
        lemma_named_in_query(ids.drop_last());
        assert(ids_query(ids).drop_last() =~= ids_query(ids.drop_last()));
        assert(ids_query(ids.drop_last()).push(ids_query(ids).last()) =~= ids_query(ids));
    }
}

/// A request for documents names exactly the identifiers that it is for, in order. Devices, alerts,
/// detections and incidents are posted for, the others are asked for in the query.
pub proof fn law_fetch_call(stage: Stage, ids: Seq<Seq<char>>)
    requires
        stage != Stage::Done,
    ensures
        ({
            let call = fetch_call(stage, ids);
            &&& named_in(call) == ids
            &&& call.post == (call.body is Some)
            &&& call.post <==> stage == Stage::Devices || stage == Stage::Alerts || stage
                == Stage::Detections || stage == Stage::Incidents
            &&& call.post ==> call.query.len() == 0 && (call.body matches Some(Json::Object(members))
                && members.len() == 1 && members[0].0 == (if stage == Stage::Alerts {
                "composite_ids"@
            } else {
                "ids"@
            }))
            &&& !call.post ==> call.query.len() == ids.len()
            &&& call.path == (match stage {
                Stage::Devices => "/devices/entities/devices/v2"@,
                Stage::Prevention => "/policy/combined/prevention/v1"@,
                Stage::Sensor => "/policy/combined/sensor-update/v2"@,
                Stage::Zta => "/zero-trust-assessment/entities/assessments/v1"@,
                Stage::Alerts => "/alerts/entities/alerts/v2"@,
                Stage::Detections => "/detects/entities/summaries/GET/v1"@,
                Stage::Incidents => "/incidents/entities/incidents/GET/v1"@,
                Stage::Vulnerabilities => "/spotlight/entities/vulnerabilities/v2"@,
                Stage::Groups => "/devices/combined/host-groups/v1"@,
                _ => "/discover/entities/hosts/v1"@,
            })
        }),
{
    let call = fetch_call(stage, ids);
    lemma_named_in_query(ids);
    if call.post {
        let items = ids.map_values(|id: Seq<char>| Json::Text(id));
        assert(items.map_values(|item: Json| item->Text_0) =~= ids);
    } else {
        assert(ids_query(ids).map_values(|pair: (Seq<char>, Seq<char>)| pair.1) =~= ids);
    }
}

/// What is asked for in a state: a probe asks for one identifier, a page for the next identifiers, a
/// batch for the next documents, and the parts that are not paged for five hundred documents at once.
/// Nothing is asked for behind the last part.
pub proof fn law_next_request(c: CollectorView)
    requires
        c.stage != Stage::Done || c.phase is Finished,
    ensures
        ({
            let path = match c.stage {
                Stage::Devices => "/devices/queries/devices/v1"@,
                Stage::Prevention => "/policy/queries/prevention/v1"@,
                Stage::Sensor => "/policy/queries/sensor-update/v1"@,
                Stage::Zta => "/zero-trust-assessment/entities/assessments/v1"@,
                Stage::Alerts => "/alerts/queries/alerts/v2"@,
                Stage::Detections => "/detects/queries/detects/v1"@,
                Stage::Incidents => "/incidents/queries/incidents/v1"@,
                Stage::Vulnerabilities => "/spotlight/queries/vulnerabilities/v1"@,
                Stage::Groups => "/devices/queries/host-groups/v1"@,
                _ => "/discover/queries/hosts/v1"@,
            };
            match c.phase {
                PhaseView::Finished => call_of(c) is None,
                PhaseView::Probe => call_of(c) == Some(
                    CallView {
                        post: false,
                        path,
                        query: seq![("limit"@, "1"@)],
                        body: None,
                    },
                ),
                PhaseView::Query(pager) => call_of(c) == Some(
                    CallView { post: false, path, query: page_query(pager), body: None },
                ),
                PhaseView::Fetch(fetcher) => call_of(c) == Some(
                    fetch_call(c.stage, batch_of(fetcher)),
                ),
                PhaseView::Combined => call_of(c) == Some(
                    CallView {
                        post: false,
                        path: fetch_call(c.stage, Seq::empty()).path,
                        query: seq![("limit"@, "500"@)],
                        body: None,
                    },
                ),
            }
        }),
{
}

// ---------------------------------------------------------------------------------------------
// Fetching

/// The identifiers that the requests for documents of a run name, one request after the other.
pub open spec fn asked_along(c: CollectorView, arrivals: Seq<Arrival>) -> Seq<Seq<char>>
    decreases arrivals.len(),
{
    if arrivals.len() == 0 {
        Seq::empty()
    } else {
        let front = arrivals.drop_last();
        asked_along(c, front) + (match collected_from(c, front) {
            Ok(earlier) => match earlier.phase {
                PhaseView::Fetch(_) => named_in(call_of(earlier)->0),
                _ => Seq::empty(),
            },
            Err(_) => Seq::empty(),
        })
    }
}

/// The replies of a run are these documents.
pub open spec fn brings(arrivals: Seq<Arrival>, documents: Seq<Json>) -> bool {
    &&& arrivals.len() == documents.len()
    &&& forall|i: int|
        0 <= i < arrivals.len() ==> (#[trigger] arrivals[i]).reply == Ok::<Json, FalconError>(
            documents[i],
        )
}

proof fn lemma_brings_front(arrivals: Seq<Arrival>, documents: Seq<Json>)
    requires
        brings(arrivals, documents),
        arrivals.len() > 0,
    ensures
        brings(arrivals.drop_last(), documents.drop_last()),
        arrivals.last().reply == Ok::<Json, FalconError>(documents.last()),
{
    assert forall|i: int| 0 <= i < arrivals.drop_last().len() implies (
    #[trigger] arrivals.drop_last()[i]).reply == Ok::<Json, FalconError>(documents.drop_last()[i]) by {
        assert(arrivals[i].reply == Ok::<Json, FalconError>(documents[i]));
    }
    assert(arrivals[arrivals.len() - 1].reply == Ok::<Json, FalconError>(
        documents[documents.len() - 1],
    ));
}

proof fn lemma_batch_taken(
    c: CollectorView,
    f: FetcherView,
    document: Json,
    now: Seq<char>,
    cutoff: Seq<char>,
)
    ensures
        ({
            let d = CollectorView { phase: PhaseView::Fetch(f), ..c };
            let g = next_batch(f, document);
            reply_taken(d, Ok(document), now, cutoff) == Ok::<CollectorView, FalconError>(
                if g.at >= g.ids.len() {
                    found_taken(c, g.found, now)
                } else {
                    CollectorView { phase: PhaseView::Fetch(g), ..c }
                },
            )
        }),
{
    lemma_begun_whatever_phase(c, PhaseView::Fetch(f));
}

#[verifier::spinoff_prover]
#[verifier::rlimit(60)]
proof fn lemma_fetching(
    c: CollectorView,
    ids: Seq<Seq<char>>,
    size: nat,
    arrivals: Seq<Arrival>,
    documents: Seq<Json>,
)
    requires
        c.stage != Stage::Done,
        c.phase == PhaseView::Fetch(first_batch(ids, size)),
        size > 0,
        brings(arrivals, documents),
        arrivals.len() > 0 ==> (arrivals.len() - 1) * size < ids.len(),
        ids.len() > 0,
    ensures
        arrivals.len() * size < ids.len() ==> collected_from(c, arrivals) == Ok::<
            CollectorView,
            FalconError,
        >(
            CollectorView {
                phase: PhaseView::Fetch(after_batches(first_batch(ids, size), documents)),
                ..c
            },
        ) && asked_along(c, arrivals) == ids.take((arrivals.len() * size) as int),
        arrivals.len() * size >= ids.len() ==> collected_from(c, arrivals) == Ok::<
            CollectorView,
            FalconError,
        >(found_taken(c, resources_on(documents), arrivals.last().now)) && asked_along(c, arrivals)
            == ids,
    decreases arrivals.len(),
{
    let first = first_batch(ids, size);
    if arrivals.len() == 0 {
        assert(arrivals.len() * size == 0) by (nonlinear_arith)
            requires
                arrivals.len() == 0,
        ;
        assert(ids.take(0) =~= Seq::empty());
        assert(after_batches(first, documents) == first);
    } else {
        let front = arrivals.drop_last();
        let earlier = documents.drop_last();
        lemma_brings_front(arrivals, documents);
        assert(front.len() * size + size == arrivals.len() * size) by (nonlinear_arith)
            requires
                front.len() + 1 == arrivals.len(),
        ;
        if front.len() > 0 {
            assert((front.len() - 1) * size <= front.len() * size) by (nonlinear_arith);
        }
        lemma_fetching(c, ids, size, front, earlier);
        law_batches(ids, size, earlier);
        law_batches(ids, size, documents);
        let f = after_batches(first, earlier);
        let d = CollectorView { phase: PhaseView::Fetch(f), ..c };
        assert(collected_from(c, front) == Ok::<CollectorView, FalconError>(d));
        law_fetch_call(c.stage, batch_of(f));
        let g = after_batches(first, documents);
        assert(ids.take(f.at as int) + batch_of(f) =~= ids.take(g.at as int));
        lemma_batch_taken(
            c,
            f,
            documents.last(),
            arrivals.last().now,
            arrivals.last().cutoff,
        );
        assert(g == next_batch(f, documents.last()));
        assert(ids.take(ids.len() as int) =~= ids);
    }
}

/// Where documents are fetched, the requests name every identifier of the list once and in order, a
/// hundred at a time, or four hundred for vulnerabilities, with the rest in the last one. Then all
/// documents of the replies, in order, are what was found.
pub proof fn law_fetching(
    c: CollectorView,
    ids: Seq<Seq<char>>,
    arrivals: Seq<Arrival>,
    documents: Seq<Json>,
)
    requires
        c.stage != Stage::Done,
        ids.len() > 0,
        brings(arrivals, documents),
        ({
            let size: nat = if c.stage == Stage::Vulnerabilities {
                400
            } else {
                100
            };
            &&& c.phase == PhaseView::Fetch(FetcherView { ids, size, at: 0, found: Seq::empty() })
            &&& (arrivals.len() - 1) * size < ids.len() <= arrivals.len() * size
        }),
    ensures
        asked_along(c, arrivals) == ids,
        collected_from(c, arrivals) == Ok::<CollectorView, FalconError>(
            found_taken(c, resources_on(documents), arrivals.last().now),
        ),
{
    let size: nat = if c.stage == Stage::Vulnerabilities {
        400
    } else {
        100
    };
    assert(c.phase == PhaseView::Fetch(first_batch(ids, size)));
    lemma_fetching(c, ids, size, arrivals, documents);
}

proof fn lemma_paging(
    c: CollectorView,
    filter: Option<Seq<char>>,
    size: u64,
    arrivals: Seq<Arrival>,
    documents: Seq<Json>,
)
    requires
        c.phase == PhaseView::Query(first_page(filter, size)),
        brings(arrivals, documents),
        forall|k: int|
            0 < k < documents.len() ==> !(#[trigger] after_pages(
                first_page(filter, size),
                documents.take(k),
            )).done,
    ensures
        ({
            let p = after_pages(first_page(filter, size), documents);
            &&& p.ids == ids_on(documents)
            &&& arrivals.len() == 0 || !p.done ==> collected_from(c, arrivals) == Ok::<
                CollectorView,
                FalconError,
            >(CollectorView { phase: PhaseView::Query(p), ..c })
        }),
    decreases arrivals.len(),
{
    let first = first_page(filter, size);
    if arrivals.len() > 0 {
        let earlier = documents.drop_last();
        lemma_brings_front(arrivals, documents);
        assert forall|k: int| 0 < k < earlier.len() implies !(#[trigger] after_pages(
            first,
            earlier.take(k),
        )).done by {
            assert(earlier.take(k) == documents.take(k));
        }
        lemma_paging(c, filter, size, arrivals.drop_last(), earlier);
        if earlier.len() > 0 {
            assert(documents.take(earlier.len() as int) == earlier);
            assert(!after_pages(first, documents.take(earlier.len() as int)).done);
        }
    } else {
        assert(after_pages(first, documents) == first);
    }
}

/// Where a part is asked for by pages of identifiers and then for the documents: the identifiers that
/// its requests for documents name are exactly those on all of its pages, in order, and what was
/// found are exactly the documents of those replies. Without an identifier nothing is asked for, and
/// nothing was found.
pub proof fn law_every_identifier_is_fetched(
    c: CollectorView,
    filter: Option<Seq<char>>,
    size: u64,
    pages: Seq<Arrival>,
    page_documents: Seq<Json>,
    batches: Seq<Arrival>,
    batch_documents: Seq<Json>,
)
    requires
        c.stage != Stage::Done,
        c.phase == PhaseView::Query(first_page(filter, size)),
        pages.len() > 0,
        brings(pages, page_documents),
        brings(batches, batch_documents),
        forall|k: int|
            0 < k < page_documents.len() ==> !(#[trigger] after_pages(
                first_page(filter, size),
                page_documents.take(k),
            )).done,
        after_pages(first_page(filter, size), page_documents).done,
        ({
            let at_once: nat = if c.stage == Stage::Vulnerabilities {
                400
            } else {
                100
            };
            let count = ids_on(page_documents).len();
            count > 0 ==> (batches.len() - 1) * at_once < count <= batches.len() * at_once
        }),
    ensures
        ids_on(page_documents).len() > 0 ==> (collected_from(c, pages) matches Ok(d) && d.stage
            == c.stage && d.phase is Fetch && asked_along(d, batches) == ids_on(page_documents)
            && collected_from(d, batches) == Ok::<CollectorView, FalconError>(
            found_taken(c, resources_on(batch_documents), batches.last().now),
        )),
        ids_on(page_documents).len() == 0 ==> collected_from(c, pages) == Ok::<
            CollectorView,
            FalconError,
        >(found_taken(c, Seq::empty(), pages.last().now)),
{
    let first = first_page(filter, size);
    let front = pages.drop_last();
    let earlier = page_documents.drop_last();
    let ids = ids_on(page_documents);
    lemma_brings_front(pages, page_documents);
    assert forall|k: int| 0 < k < earlier.len() implies !(#[trigger] after_pages(
        first,
        earlier.take(k),
    )).done by {
        assert(earlier.take(k) == page_documents.take(k));
    }
    lemma_paging(c, filter, size, front, earlier);
    if earlier.len() > 0 {
        assert(page_documents.take(earlier.len() as int) == earlier);
        assert(!after_pages(first, page_documents.take(earlier.len() as int)).done);
    }
    let p = after_pages(first, earlier);
    let before = CollectorView { phase: PhaseView::Query(p), ..c };
    assert(collected_from(c, front) == Ok::<CollectorView, FalconError>(before));
    assert(next_page(p, page_documents.last()).ids == ids);
    lemma_begun_whatever_phase(c, PhaseView::Query(p));
    if ids.len() > 0 {
        let at_once: nat = if c.stage == Stage::Vulnerabilities {
            400
        } else {
            100
        };
        let d = CollectorView { phase: PhaseView::Fetch(first_batch(ids, at_once)), ..c };
        assert(collected_from(c, pages) == Ok::<CollectorView, FalconError>(d));
        law_fetching(d, ids, batches, batch_documents);
        lemma_begun_whatever_phase(c, d.phase);
    }
}

/// The assessments of all devices that were found are asked for, as soon as their API is known to be
/// available; without a device none is.
pub proof fn law_assessments(
    c: CollectorView,
    document: Json,
    now: Seq<char>,
    cutoff: Seq<char>,
    batches: Seq<Arrival>,
    documents: Seq<Json>,
)
    requires
        c.stage == Stage::Zta,
        c.phase is Probe,
        brings(batches, documents),
        c.device_ids.len() > 0,
        (batches.len() - 1) * 100 < c.device_ids.len() <= batches.len() * 100,
    ensures
        reply_taken(c, Ok(document), now, cutoff) matches Ok(d) && d.stage == Stage::Zta
            && asked_along(d, batches) == c.device_ids && collected_from(d, batches) == Ok::<
            CollectorView,
            FalconError,
        >(found_taken(d, resources_on(documents), batches.last().now)),
{
    let d = reply_taken(c, Ok(document), now, cutoff)->Ok_0;
    law_fetching(d, c.device_ids, batches, documents);
}

/// Parts that are not paged take all documents of their only reply.
pub proof fn law_combined(c: CollectorView, document: Json, now: Seq<char>, cutoff: Seq<char>)
    requires
        c.phase is Combined,
    ensures
        reply_taken(c, Ok(document), now, cutoff) == Ok::<CollectorView, FalconError>(
            found_taken(c, resources_of(document), now),
        ),
{
}

// ---------------------------------------------------------------------------------------------
// The course of a part

/// Behind a probe that is answered, a part begins: with all of its documents at once, with the
/// documents of the devices, or with the first page of its identifiers, of the configured size and
/// filtered by time or kind where it has to be. The availability of its API is noted either way.
pub proof fn law_part_begins(c: CollectorView, document: Json, now: Seq<char>, cutoff: Seq<char>)
    requires
        c.phase is Probe,
        c.stage != Stage::Done,
        c.stage != Stage::Devices,
    ensures
        reply_taken(c, Ok(document), now, cutoff) matches Ok(d) && {
            let noted = DataView {
                available: c.data.available.push(
                    (
                        match c.stage {
                            Stage::Prevention => "prevention_policy"@,
                            Stage::Sensor => "sensor_policy"@,
                            Stage::Zta => "zta"@,
                            Stage::Alerts => "alerts"@,
                            Stage::Detections => "detections"@,
                            Stage::Incidents => "incidents"@,
                            Stage::Vulnerabilities => "spotlight"@,
                            Stage::Groups => "host_groups"@,
                            _ => "discover"@,
                        },
                        true,
                    ),
                ),
                ..c.data
            };
            let pages = |filter: Seq<char>| d == (CollectorView {
                phase: PhaseView::Query(
                    PagerView {
                        filter: Some(filter),
                        size: c.page_size,
                        offset: 0,
                        ids: Seq::empty(),
                        done: false,
                    },
                ),
                data: noted,
                ..c
            });
            match c.stage {
                Stage::Prevention | Stage::Sensor | Stage::Groups => d == (CollectorView {
                    phase: PhaseView::Combined,
                    data: noted,
                    ..c
                }),
                Stage::Alerts | Stage::Detections => pages(
                    "created_timestamp"@ + ":>\""@ + cutoff + "\""@,
                ),
                Stage::Incidents => pages("start"@ + ":>\""@ + cutoff + "\""@),
                Stage::Unmanaged => pages("entity_type: \"unmanaged\""@),
                Stage::Zta => if c.device_ids.len() == 0 {
                    d == found_taken(CollectorView { data: noted, ..c }, Seq::empty(), now)
                } else {
                    d == (CollectorView {
                        phase: PhaseView::Fetch(
                            FetcherView {
                                ids: c.device_ids,
                                size: 100,
                                at: 0,
                                found: Seq::empty(),
                            },
                        ),
                        data: noted,
                        ..c
                    })
                },
                _ => d == devices_begun(CollectorView { next_device: 0, data: noted, ..c }, now),
            }
        },
{
}

/// The vulnerabilities of the devices are asked for fifty devices at a time, from the first device
/// on, in pages of the configured size; behind the last device the next part begins.
pub proof fn law_devices_at_once(c: CollectorView, now: Seq<char>)
    ensures
        ({
            let d = devices_begun(c, now);
            let end = if c.next_device + 50 < c.device_ids.len() {
                (c.next_device + 50) as nat
            } else {
                c.device_ids.len()
            };
            &&& c.next_device < c.device_ids.len() ==> d == (CollectorView {
                phase: PhaseView::Query(
                    PagerView {
                        filter: Some(
                            devices_filter(
                                c.device_ids.subrange(c.next_device as int, end as int),
                            ),
                        ),
                        size: c.page_size,
                        offset: 0,
                        ids: Seq::empty(),
                        done: false,
                    },
                ),
                next_device: end,
                ..c
            })
            &&& c.next_device >= c.device_ids.len() ==> d == begun(c, following(c.stage), now)
        }),
{
}

/// A collection begins with the first page of devices, of the configured size, and with the API of the
/// devices noted as available. Nothing else is there.
pub proof fn law_collection_begins(
    page_size: u64,
    lookback_days: i64,
    features: CrowdStrikeFeatures,
)
    ensures
        ({
            let c = collection_start(page_size, lookback_days, features);
            &&& c.page_size == page_size && c.lookback_days == lookback_days && c.features
                == features
            &&& c.stage == Stage::Devices
            &&& c.phase == PhaseView::Query(
                PagerView {
                    filter: None,
                    size: page_size,
                    offset: 0,
                    ids: Seq::empty(),
                    done: false,
                },
            )
            &&& c.data.available == seq![("hosts"@, true)]
            &&& c.data.devices.len() == 0 && c.data.unmanaged.len() == 0 && c.device_ids.len() == 0
            &&& c.data.zta.dom().is_empty() && c.data.alerts.dom().is_empty()
            &&& c.data.detections.dom().is_empty() && c.data.incidents.dom().is_empty()
            &&& c.data.vulns.dom().is_empty() && c.data.groups.dom().is_empty()
            &&& c.data.prevention.dom().is_empty() && c.data.sensor.dom().is_empty()
        }),
{
}

/// Which features want which part: devices are always wanted, both kinds of policies together, and
/// each other part by its own feature.
pub proof fn law_wanted(features: CrowdStrikeFeatures, stage: Stage)
    ensures
        is_enabled(features, stage) == (match stage {
            Stage::Prevention | Stage::Sensor => features.policies,
            Stage::Zta => features.zta,
            Stage::Alerts => features.alerts,
            Stage::Detections => features.detections,
            Stage::Incidents => features.incidents,
            Stage::Vulnerabilities => features.vulnerability_summary,
            Stage::Groups => features.host_groups,
            Stage::Unmanaged => features.unmanaged_assets,
            _ => true,
        }),
{
}

/// The APIs that a complete collection reports on, by the features: the hosts, and those of the wanted
/// parts behind them.
pub proof fn law_reported_apis(
    page_size: u64,
    lookback_days: i64,
    features: CrowdStrikeFeatures,
    arrivals: Seq<Arrival>,
)
    ensures
        collected_from(collection_start(page_size, lookback_days, features), arrivals) matches Ok(c)
            ==> c.phase is Finished ==> ({
            let none = Seq::<Seq<char>>::empty();
            names_in(c.data.available) == seq!["hosts"@] + (if features.policies {
                seq!["prevention_policy"@, "sensor_policy"@]
            } else {
                none
            }) + (if features.zta {
                seq!["zta"@]
            } else {
                none
            }) + (if features.alerts {
                seq!["alerts"@]
            } else {
                none
            }) + (if features.detections {
                seq!["detections"@]
            } else {
                none
            }) + (if features.incidents {
                seq!["incidents"@]
            } else {
                none
            }) + (if features.vulnerability_summary {
                seq!["spotlight"@]
            } else {
                none
            }) + (if features.host_groups {
                seq!["host_groups"@]
            } else {
                none
            }) + (if features.unmanaged_assets {
                seq!["discover"@]
            } else {
                none
            })
        }),
{
    law_all_wanted_parts_are_reported(page_size, lookback_days, features, arrivals);
    lemma_wanted_names(features);
}

spec fn added(names: Seq<Seq<char>>, wanted: bool, more: Seq<Seq<char>>) -> Seq<Seq<char>> {
    names + (if wanted {
        more
    } else {
        Seq::empty()
    })
}

proof fn lemma_wanted_names(features: CrowdStrikeFeatures)
    ensures
        wanted_names(features, Stage::Done) == added(
            added(
                added(
                    added(
                        added(
                            added(
                                added(
                                    added(
                                        seq!["hosts"@],
                                        features.policies,
                                        seq!["prevention_policy"@, "sensor_policy"@],
                                    ),
                                    features.zta,
                                    seq!["zta"@],
                                ),
                                features.alerts,
                                seq!["alerts"@],
                            ),
                            features.detections,
                            seq!["detections"@],
                        ),
                        features.incidents,
                        seq!["incidents"@],
                    ),
                    features.vulnerability_summary,
                    seq!["spotlight"@],
                ),
                features.host_groups,
                seq!["host_groups"@],
            ),
            features.unmanaged_assets,
            seq!["discover"@],
        ),
{
    lemma_added(features, Stage::Prevention);
    lemma_added(features, Stage::Sensor);
    lemma_added(features, Stage::Zta);
    lemma_added(features, Stage::Alerts);
    lemma_added(features, Stage::Detections);
    lemma_added(features, Stage::Incidents);
    lemma_added(features, Stage::Vulnerabilities);
    lemma_added(features, Stage::Groups);
    lemma_added(features, Stage::Unmanaged);
    lemma_added_twice(
        seq!["hosts"@],
        features.policies,
        "prevention_policy"@,
        "sensor_policy"@,
    );
}

proof fn lemma_added(features: CrowdStrikeFeatures, stage: Stage)
    requires
        stage != Stage::Done,
        stage != Stage::Devices,
    ensures
        wanted_names(features, stage) == added(
            wanted_names(features, preceding(stage)),
            is_enabled(features, stage),
            seq![api_name(stage)],
        ),
{
    let names = wanted_names(features, preceding(stage));
    assert(names + seq![api_name(stage)] =~= names.push(api_name(stage)));
    assert(names + Seq::<Seq<char>>::empty() =~= names);
}

proof fn lemma_added_twice(names: Seq<Seq<char>>, wanted: bool, a: Seq<char>, b: Seq<char>)
    ensures
        added(added(names, wanted, seq![a]), wanted, seq![b]) == added(names, wanted, seq![a, b]),
{
    assert(added(added(names, wanted, seq![a]), wanted, seq![b]) =~= added(
        names,
        wanted,
        seq![a, b],
    ));
}

} // verus!
