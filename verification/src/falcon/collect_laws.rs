//! What holds of every collection.
use crate::config::CrowdStrikeFeatures;
use crate::falcon::api::{availability, FalconError};
use crate::falcon::collect::{
    begun, collection_start, found_taken, reply_taken, with_found, CollectorView, PhaseView,
};
use crate::falcon::data::{all_under, under, DataView};
use crate::falcon::gather::{
    by_device_of, by_host_of, counted, device_of, indexed, summary_under, with_hosts,
};
use crate::falcon::record::{items_of, text_member};
use crate::falcon::score::{summary_of, SummaryView};
use crate::falcon::stage::{api_name, following, is_enabled, preceding, rank, Stage};
use crate::json::{member_of, Json};
use vstd::prelude::*;

verus! {

/// A reply, with the time and the time that the lookback begins at.
pub struct Arrival {
    pub reply: Result<Json, FalconError>,
    pub now: Seq<char>,
    pub cutoff: Seq<char>,
}

/// A collection behind a run of replies.
pub open spec fn collected_from(c: CollectorView, arrivals: Seq<Arrival>) -> Result<
    CollectorView,
    FalconError,
>
    decreases arrivals.len(),
{
    if arrivals.len() == 0 {
        Ok(c)
    } else {
        match collected_from(c, arrivals.drop_last()) {
            Err(error) => Err(error),
            Ok(earlier) => {
                let last = arrivals.last();
                reply_taken(earlier, last.reply, last.now, last.cutoff)
            },
        }
    }
}

/// Whether nothing was collected for a part.
pub open spec fn is_untouched(data: DataView, stage: Stage) -> bool {
    match stage {
        Stage::Devices => data.devices.len() == 0,
        Stage::Prevention => data.prevention == Map::<Seq<char>, Json>::empty(),
        Stage::Sensor => data.sensor == Map::<Seq<char>, Json>::empty(),
        Stage::Zta => data.zta == Map::<Seq<char>, Json>::empty(),
        Stage::Alerts => data.alerts == Map::<Seq<char>, Seq<Json>>::empty(),
        Stage::Detections => data.detections == Map::<Seq<char>, Seq<Json>>::empty(),
        Stage::Incidents => data.incidents == Map::<Seq<char>, Seq<Json>>::empty(),
        Stage::Vulnerabilities => data.vulns == Map::<Seq<char>, SummaryView>::empty(),
        Stage::Groups => data.groups == Map::<Seq<char>, Json>::empty(),
        Stage::Unmanaged => data.unmanaged.len() == 0,
        Stage::Done => data.refreshed.len() == 0,
    }
}

/// Only wanted parts are worked on, nothing is collected for a part that is not wanted or not yet
/// reached, and the API of the devices is reported as available.
pub open spec fn is_orderly(c: CollectorView) -> bool {
    &&& is_enabled(c.features, c.stage)
    &&& c.data.available.len() > 0
    &&& c.data.available[0] == ("hosts"@, true)
    &&& c.phase is Finished <==> c.stage == Stage::Done
    &&& forall|stage: Stage| #[trigger]
        rank(stage) > rank(c.stage) || !is_enabled(c.features, stage) ==> is_untouched(
            c.data,
            stage,
        )
}

/// Where a collection may go from a state: to the same part or a later one, with the same settings,
/// without touching what was collected for other parts or taking back that an API is available.
pub open spec fn goes_to(c: CollectorView, d: CollectorView) -> bool {
    &&& d.features == c.features
    &&& d.page_size == c.page_size
    &&& d.lookback_days == c.lookback_days
    &&& rank(d.stage) >= rank(c.stage)
    &&& is_enabled(d.features, d.stage)
    &&& d.phase is Finished <==> d.stage == Stage::Done
    &&& forall|stage: Stage|
        stage != c.stage && stage != Stage::Done && #[trigger] is_untouched(c.data, stage)
            ==> is_untouched(d.data, stage)
    &&& d.stage != Stage::Done ==> d.data.refreshed == c.data.refreshed
    &&& c.data.available.is_prefix_of(d.data.available)
}

proof fn lemma_begun(c: CollectorView, stage: Stage, now: Seq<char>)
    ensures
        ({
            let d = begun(c, stage, now);
            &&& d.features == c.features
            &&& d.page_size == c.page_size
            &&& d.lookback_days == c.lookback_days
            &&& rank(d.stage) >= rank(stage)
            &&& is_enabled(d.features, d.stage)
            &&& d.phase is Finished <==> d.stage == Stage::Done
            &&& d.data == (DataView { refreshed: d.data.refreshed, ..c.data })
            &&& d.stage != Stage::Done ==> d.data.refreshed == c.data.refreshed
        }),
    decreases 10 - rank(stage),
{
    if stage != Stage::Done && !is_enabled(c.features, stage) {
        lemma_begun(c, following(stage), now);
    }
}

proof fn lemma_found_taken(c: CollectorView, found: Seq<Json>, now: Seq<char>)
    requires
        c.stage != Stage::Done,
        is_enabled(c.features, c.stage),
    ensures
        goes_to(c, found_taken(c, found, now)),
{
    let taken = CollectorView {
        data: with_found(c.data, c.stage, found),
        device_ids: if c.stage == Stage::Devices {
            crate::falcon::collect::ids_of(found)
        } else {
            c.device_ids
        },
        ..c
    };
    lemma_begun(taken, following(c.stage), now);
}

#[verifier::spinoff_prover]
#[verifier::rlimit(50)]
proof fn lemma_goes(
    c: CollectorView,
    reply: Result<Json, FalconError>,
    now: Seq<char>,
    cutoff: Seq<char>,
)
    requires
        is_enabled(c.features, c.stage),
        c.phase is Finished <==> c.stage == Stage::Done,
    ensures
        reply_taken(c, reply, now, cutoff) matches Ok(d) ==> goes_to(c, d),
{
    match c.phase {
        PhaseView::Finished => {},
        PhaseView::Probe => {
            if let Ok(available) = availability(reply) {
                let noted = CollectorView {
                    data: DataView {
                        available: c.data.available.push((api_name(c.stage), available)),
                        ..c.data
                    },
                    ..c
                };
                lemma_begun(noted, following(c.stage), now);
                lemma_begun(CollectorView { next_device: 0, ..noted }, following(c.stage), now);
                lemma_found_taken(noted, Seq::empty(), now);
                assert forall|stage: Stage| #[trigger]
                    is_untouched(c.data, stage) implies is_untouched(noted.data, stage) by {}
            }
        },
        PhaseView::Query(pager) => {
            lemma_found_taken(c, Seq::empty(), now);
        },
        PhaseView::Fetch(fetcher) => {
            if let Ok(document) = reply {
                lemma_found_taken(
                    c,
                    crate::falcon::paging::next_batch(fetcher, document).found,
                    now,
                );
            }
        },
        PhaseView::Combined => {
            if let Ok(document) = reply {
                lemma_found_taken(c, crate::falcon::record::resources_of(document), now);
            }
        },
    }
}

/// Whatever the replies are: only parts that are wanted are ever asked for, in their order, and
/// nothing is collected for any other. The API of the devices always counts as available.
pub proof fn law_only_wanted_parts(
    page_size: u64,
    lookback_days: i64,
    features: CrowdStrikeFeatures,
    arrivals: Seq<Arrival>,
)
    ensures
        collected_from(collection_start(page_size, lookback_days, features), arrivals) matches Ok(c)
            ==> c.features == features && c.page_size == page_size && c.lookback_days
            == lookback_days && is_orderly(c),
    decreases arrivals.len(),
{
    let start = collection_start(page_size, lookback_days, features);
    if arrivals.len() > 0 {
        law_only_wanted_parts(page_size, lookback_days, features, arrivals.drop_last());
        if let Ok(earlier) = collected_from(start, arrivals.drop_last()) {
            let last = arrivals.last();
            lemma_goes(earlier, last.reply, last.now, last.cutoff);
            if let Ok(c) = reply_taken(earlier, last.reply, last.now, last.cutoff) {
                assert forall|stage: Stage| #[trigger]
                    rank(stage) > rank(c.stage) || !is_enabled(c.features, stage) implies is_untouched(
                    c.data,
                    stage,
                ) by {
                    assert(is_untouched(earlier.data, stage));
                }
            }
        }
    } else {
        assert(is_orderly(start));
    }
}

/// An optional API whose probe is answered with 400, 403 or 404 is marked unavailable and skipped:
/// nothing else that was collected changes.
pub proof fn law_unavailable_is_skipped(
    c: CollectorView,
    status: u16,
    now: Seq<char>,
    cutoff: Seq<char>,
)
    requires
        c.phase is Probe,
        c.stage != Stage::Done,
        status == 400 || status == 403 || status == 404,
    ensures
        reply_taken(c, Err(FalconError::Status(status)), now, cutoff) matches Ok(d) && rank(d.stage)
            > rank(c.stage) && d.device_ids == c.device_ids && d.data == (DataView {
            available: c.data.available.push((api_name(c.stage), false)),
            refreshed: d.data.refreshed,
            ..c.data
        }),
{
    let noted = CollectorView {
        data: DataView {
            available: c.data.available.push((api_name(c.stage), false)),
            ..c.data
        },
        ..c
    };
    lemma_begun(noted, following(c.stage), now);
    lemma_begun_ids(noted, following(c.stage), now);
}

proof fn lemma_begun_ids(c: CollectorView, stage: Stage, now: Seq<char>)
    ensures
        begun(c, stage, now).device_ids == c.device_ids,
    decreases 10 - rank(stage),
{
    if stage != Stage::Done && !is_enabled(c.features, stage) {
        lemma_begun_ids(c, following(stage), now);
    }
}

/// Every other failure, of a probe or of any other request, ends the collection with that failure.
pub proof fn law_failures_end(
    c: CollectorView,
    error: FalconError,
    now: Seq<char>,
    cutoff: Seq<char>,
)
    requires
        !(c.phase is Finished),
        c.phase is Probe ==> error != FalconError::Status(400) && error != FalconError::Status(403)
            && error != FalconError::Status(404),
    ensures
        reply_taken(c, Err(error), now, cutoff) == Err::<CollectorView, FalconError>(error),
{
}

/// The names of the APIs of all wanted parts up to one, in order.
pub open spec fn wanted_names(features: CrowdStrikeFeatures, stage: Stage) -> Seq<Seq<char>>
    decreases rank(stage),
{
    if stage == Stage::Devices {
        seq![api_name(stage)]
    } else if stage != Stage::Done && is_enabled(features, stage) {
        wanted_names(features, preceding(stage)).push(api_name(stage))
    } else {
        wanted_names(features, preceding(stage))
    }
}

/// The names whose availability is noted in a state: those of the wanted parts before its own, and
/// its own behind the probe.
pub open spec fn noted_names(c: CollectorView) -> Seq<Seq<char>> {
    if c.phase is Probe && c.stage != Stage::Devices {
        wanted_names(c.features, preceding(c.stage))
    } else {
        wanted_names(c.features, c.stage)
    }
}

/// The names in a list of availabilities.
pub open spec fn names_in(available: Seq<(Seq<char>, bool)>) -> Seq<Seq<char>> {
    available.map_values(|e: (Seq<char>, bool)| e.0)
}

proof fn lemma_begun_names(c: CollectorView, stage: Stage, now: Seq<char>)
    requires
        stage != Stage::Devices,
    ensures
        noted_names(begun(c, stage, now)) == wanted_names(c.features, preceding(stage)),
        begun(c, stage, now).data.available == c.data.available,
        begun(c, stage, now).stage != Stage::Devices,
    decreases 10 - rank(stage),
{
    if stage != Stage::Done && !is_enabled(c.features, stage) {
        lemma_begun_names(c, following(stage), now);
        assert(preceding(following(stage)) == stage);
    }
}

proof fn lemma_names_kept(c: CollectorView, found: Seq<Json>, now: Seq<char>)
    requires
        c.stage != Stage::Done,
        is_enabled(c.features, c.stage),
    ensures
        noted_names(found_taken(c, found, now)) == wanted_names(c.features, c.stage),
        found_taken(c, found, now).data.available == c.data.available,
        found_taken(c, found, now).stage != Stage::Devices,
{
    let taken = CollectorView {
        data: with_found(c.data, c.stage, found),
        device_ids: if c.stage == Stage::Devices {
            crate::falcon::collect::ids_of(found)
        } else {
            c.device_ids
        },
        ..c
    };
    lemma_begun_names(taken, following(c.stage), now);
    assert(preceding(following(c.stage)) == c.stage);
}

proof fn lemma_names_noted(
    c: CollectorView,
    reply: Result<Json, FalconError>,
    now: Seq<char>,
    cutoff: Seq<char>,
)
    requires
        is_enabled(c.features, c.stage),
        c.phase is Finished <==> c.stage == Stage::Done,
        c.phase is Probe ==> c.stage != Stage::Devices,
        names_in(c.data.available) == noted_names(c),
    ensures
        reply_taken(c, reply, now, cutoff) matches Ok(d) ==> names_in(d.data.available)
            == noted_names(d) && (d.phase is Probe ==> d.stage != Stage::Devices),
{
    lemma_goes(c, reply, now, cutoff);
    match c.phase {
        PhaseView::Finished => {},
        PhaseView::Probe => {
            if let Ok(available) = availability(reply) {
                let entry = (api_name(c.stage), available);
                let noted = CollectorView {
                    data: DataView { available: c.data.available.push(entry), ..c.data },
                    ..c
                };
                assert(names_in(c.data.available.push(entry)) =~= names_in(c.data.available).push(
                    entry.0,
                ));
                assert(preceding(following(c.stage)) == c.stage);
                lemma_begun_names(noted, following(c.stage), now);
                lemma_begun_names(
                    CollectorView { next_device: 0, ..noted },
                    following(c.stage),
                    now,
                );
                lemma_names_kept(noted, Seq::empty(), now);
            }
        },
        PhaseView::Query(pager) => {
            lemma_names_kept(c, Seq::empty(), now);
        },
        PhaseView::Fetch(fetcher) => {
            if let Ok(document) = reply {
                lemma_names_kept(c, crate::falcon::paging::next_batch(fetcher, document).found, now);
            }
        },
        PhaseView::Combined => {
            if let Ok(document) = reply {
                lemma_names_kept(c, crate::falcon::record::resources_of(document), now);
            }
        },
    }
}

proof fn lemma_names_along(
    page_size: u64,
    lookback_days: i64,
    features: CrowdStrikeFeatures,
    arrivals: Seq<Arrival>,
)
    ensures
        collected_from(collection_start(page_size, lookback_days, features), arrivals) matches Ok(c)
            ==> names_in(c.data.available) == noted_names(c) && (c.phase is Probe ==> c.stage
            != Stage::Devices),
    decreases arrivals.len(),
{
    let start = collection_start(page_size, lookback_days, features);
    if arrivals.len() > 0 {
        lemma_names_along(page_size, lookback_days, features, arrivals.drop_last());
        law_only_wanted_parts(page_size, lookback_days, features, arrivals.drop_last());
        if let Ok(earlier) = collected_from(start, arrivals.drop_last()) {
            let last = arrivals.last();
            lemma_names_noted(earlier, last.reply, last.now, last.cutoff);
        }
    } else {
        assert(names_in(start.data.available) =~= seq!["hosts"@]);
        assert(noted_names(start) =~= seq!["hosts"@]);
    }
}

/// A collection that is complete reports the availability of the API of every wanted part, each
/// once and in order, and of no other.
pub proof fn law_all_wanted_parts_are_reported(
    page_size: u64,
    lookback_days: i64,
    features: CrowdStrikeFeatures,
    arrivals: Seq<Arrival>,
)
    ensures
        collected_from(collection_start(page_size, lookback_days, features), arrivals) matches Ok(c)
            ==> c.phase is Finished ==> names_in(c.data.available) == wanted_names(
            features,
            Stage::Done,
        ),
{
    lemma_names_along(page_size, lookback_days, features, arrivals);
    law_only_wanted_parts(page_size, lookback_days, features, arrivals);
}

// ---------------------------------------------------------------------------------------------
// Tables

/// The documents of a list that belong to a device, in order.
pub open spec fn of_device(found: Seq<Json>, id: Seq<char>) -> Seq<Json>
    decreases found.len(),
{
    if found.len() == 0 {
        Seq::empty()
    } else if device_of(found.last()) == Some(id) {
        of_device(found.drop_last(), id).push(found.last())
    } else {
        of_device(found.drop_last(), id)
    }
}

/// Under a device stand the documents that belong to it, all of them, in order.
pub proof fn law_by_device(found: Seq<Json>, id: Seq<char>)
    ensures
        all_under(by_device_of(found), id) == of_device(found, id),
        by_device_of(found).dom().contains(id) <==> of_device(found, id).len() > 0,
    decreases found.len(),
{
    if found.len() > 0 {
        law_by_device(found.drop_last(), id);
    }
}

/// The number of hosts of a list that are a device.
pub open spec fn times_named(hosts: Seq<Json>, id: Seq<char>) -> nat
    decreases hosts.len(),
{
    if hosts.len() == 0 {
        0
    } else {
        times_named(hosts.drop_last(), id) + (if text_member(hosts.last(), "device_id"@) == Some(
            id,
        ) {
            1nat
        } else {
            0
        })
    }
}

/// The number of times that incidents name a device as a host.
pub open spec fn times_hit(found: Seq<Json>, id: Seq<char>) -> nat
    decreases found.len(),
{
    if found.len() == 0 {
        0
    } else {
        times_hit(found.drop_last(), id) + times_named(
            items_of(member_of(found.last(), "hosts"@)),
            id,
        )
    }
}

pub proof fn lemma_with_hosts(
    base: Map<Seq<char>, Seq<Json>>,
    hosts: Seq<Json>,
    incident: Json,
    id: Seq<char>,
)
    ensures
        all_under(with_hosts(base, hosts, incident), id) == all_under(base, id) + Seq::new(
            times_named(hosts, id),
            |i: int| incident,
        ),
        with_hosts(base, hosts, incident).dom().contains(id) <==> base.dom().contains(id)
            || times_named(hosts, id) > 0,
    decreases hosts.len(),
{
    if hosts.len() == 0 {
        assert(all_under(base, id) + Seq::new(0, |i: int| incident) =~= all_under(base, id));
    } else {
        lemma_with_hosts(base, hosts.drop_last(), incident, id);
        let n = times_named(hosts.drop_last(), id);
        assert(Seq::new(n, |i: int| incident).push(incident) =~= Seq::new(
            n + 1,
            |i: int| incident,
        ));
        assert((all_under(base, id) + Seq::new(n, |i: int| incident)).push(incident) =~= all_under(
            base,
            id,
        ) + Seq::new(n, |i: int| incident).push(incident));
    }
}

/// A device has as many incidents as incidents name it as a host.
pub proof fn law_by_host(found: Seq<Json>, id: Seq<char>)
    ensures
        all_under(by_host_of(found), id).len() == times_hit(found, id),
        by_host_of(found).dom().contains(id) <==> times_hit(found, id) > 0,
    decreases found.len(),
{
    if found.len() > 0 {
        law_by_host(found.drop_last(), id);
        lemma_with_hosts(
            by_host_of(found.drop_last()),
            items_of(member_of(found.last(), "hosts"@)),
            found.last(),
            id,
        );
    }
}

/// The documents of a list whose member under a key is a text, in order.
pub open spec fn with_text(found: Seq<Json>, key: Seq<char>, id: Seq<char>) -> Seq<Json>
    decreases found.len(),
{
    if found.len() == 0 {
        Seq::empty()
    } else if text_member(found.last(), key) == Some(id) {
        with_text(found.drop_last(), key, id).push(found.last())
    } else {
        with_text(found.drop_last(), key, id)
    }
}

/// Under an identifier stands the last document that has it.
pub proof fn law_indexed(found: Seq<Json>, key: Seq<char>, id: Seq<char>)
    ensures
        under(indexed(Map::empty(), found, key), id) == (if with_text(found, key, id).len() > 0 {
            Some(with_text(found, key, id).last())
        } else {
            None
        }),
    decreases found.len(),
{
    if found.len() > 0 {
        law_indexed(found.drop_last(), key, id);
    }
}

/// The summary of a device is that of the vulnerabilities that name it, whatever batches they came
/// in.
pub proof fn law_counted(first: Seq<Json>, second: Seq<Json>, id: Seq<char>)
    ensures
        summary_under(counted(Map::empty(), first), id) == summary_of(with_text(first, "aid"@, id)),
        counted(counted(Map::empty(), first), second) == counted(Map::empty(), first + second),
    decreases first.len() + second.len(),
{
    if first.len() > 0 {
        law_counted(first.drop_last(), Seq::empty(), id);
        let named = with_text(first.drop_last(), "aid"@, id);
        assert(named.push(first.last()).drop_last() == named);
    }
    if second.len() > 0 {
        law_counted(first, second.drop_last(), id);
        assert((first + second).drop_last() == first + second.drop_last());
    } else {
        assert(first + second == first);
    }
}

} // verus!
