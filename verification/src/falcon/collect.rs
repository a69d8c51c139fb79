//! Collecting from the Falcon API. A collector says which request comes next and takes its reply;
//! sending requests is up to its user.
use crate::config::{CrowdStrikeConfig, CrowdStrikeFeatures};
use crate::falcon::api::{availability, judge_probe, reply_json, FalconError};
use crate::falcon::clock::{
    after_filter, cutoff, days_before, filter_after, has_date, now, or_empty, reaches_back, rfc3339,
};
use crate::falcon::data::{documents, flags, lists, no_data, Data, DataView};
use crate::falcon::gather::{
    by_device, by_device_of, by_host, by_host_of, count_all, counted, index, indexed,
};
use crate::falcon::paging::{
    batch_end, batch_of, copy_texts, end_of_batch, first_batch, first_page, next_batch, next_page,
    page_query, Fetcher, FetcherView, Pager, PagerView,
};
use crate::falcon::record::{resources, resources_of, string, text_member};
use crate::falcon::stage::{
    api_name, batch_size, body_key, devices_filter, enabled, entity_path, filter_devices, following,
    is_enabled, key_of_body, name_of, next_stage, path_of_entities, path_of_query, query_path, rank,
    size_of_batch, Stage, DEVICES_AT_ONCE,
};
use crate::falcon::table::Table;
use crate::json::{array_value, collected, entries_of, json, jsons, object_value, text_value, Json};
use crate::query::{pair_texts, Pairs};
use crate::text::texts;
use vstd::prelude::*;

verus! {

// ---------------------------------------------------------------------------------------------
// Calls

/// A request to the Falcon API: a GET, or a POST with a body.
pub struct Call {
    pub post: bool,
    pub path: String,
    pub query: Vec<(String, String)>,
    pub body: Option<serde_json::Value>,
}

/// A request to the Falcon API, by its contents.
#[verifier::ext_equal]
pub struct CallView {
    pub post: bool,
    pub path: Seq<char>,
    pub query: Pairs,
    pub body: Option<Json>,
}

impl View for Call {
    type V = CallView;

    open spec fn view(&self) -> CallView {
        CallView {
            post: self.post,
            path: self.path@,
            query: pair_texts(self.query@),
            body: match self.body {
                Some(value) => Some(json(value)),
                None => None,
            },
        }
    }
}

/// An optional request, by its contents.
pub open spec fn call_view(call: Option<Call>) -> Option<CallView> {
    match call {
        Some(c) => Some(c@),
        None => None,
    }
}

/// A GET.
pub open spec fn get_call(path: Seq<char>, query: Pairs) -> CallView {
    CallView { post: false, path, query, body: None }
}

/// The query that asks for at most so many.
pub open spec fn limit_query(limit: Seq<char>) -> Pairs {
    seq![("limit"@, limit)]
}

/// The query that names identifiers.
pub open spec fn ids_query(ids: Seq<Seq<char>>) -> Pairs {
    ids.map_values(|id: Seq<char>| ("ids"@, id))
}

/// The body that names identifiers.
pub open spec fn ids_body(key: Seq<char>, ids: Seq<Seq<char>>) -> Json {
    Json::Object(seq![(key, Json::Array(ids.map_values(|id: Seq<char>| Json::Text(id))))])
}

/// The request for the documents with these identifiers.
pub open spec fn fetch_call(stage: Stage, ids: Seq<Seq<char>>) -> CallView {
    match body_key(stage) {
        Some(key) => CallView {
            post: true,
            path: entity_path(stage),
            query: Seq::empty(),
            body: Some(ids_body(key, ids)),
        },
        None => get_call(entity_path(stage), ids_query(ids)),
    }
}

fn call_get(path: &str, query: Vec<(String, String)>) -> (r: Call)
    ensures
        r@ == get_call(path@, pair_texts(query@)),
{
    Call { post: false, path: path.to_owned(), query, body: None }
}

fn query_limit(limit: &str) -> (r: Vec<(String, String)>)
    ensures
        pair_texts(r@) == limit_query(limit@),
{
    let mut out: Vec<(String, String)> = Vec::new();
    out.push(("limit".to_owned(), limit.to_owned()));
    assert(pair_texts(out@) =~= limit_query(limit@));
    out
}

fn query_ids(ids: &Vec<String>) -> (r: Vec<(String, String)>)
    ensures
        pair_texts(r@) == ids_query(texts(ids@)),
{
    let mut out: Vec<(String, String)> = Vec::new();
    let mut i: usize = 0;
    while i < ids.len()
        invariant
            i <= ids@.len(),
            pair_texts(out@) == ids_query(texts(ids@)).take(i as int),
        decreases ids@.len() - i,
    {
        let ghost before = pair_texts(out@);
        out.push(("ids".to_owned(), ids[i].clone()));
        assert(pair_texts(out@) =~= before.push(("ids"@, ids@[i as int]@)));
        i += 1;
    }
    assert(pair_texts(out@) =~= ids_query(texts(ids@)));
    out
}

fn body_ids(key: &str, ids: &Vec<String>) -> (r: serde_json::Value)
    ensures
        json(r) == ids_body(key@, texts(ids@)),
{
    let ghost wanted = texts(ids@).map_values(|id: Seq<char>| Json::Text(id));
    let mut values: Vec<serde_json::Value> = Vec::new();
    let mut i: usize = 0;
    while i < ids.len()
        invariant
            i <= ids@.len(),
            wanted == texts(ids@).map_values(|id: Seq<char>| Json::Text(id)),
            jsons(values@) == wanted.take(i as int),
        decreases ids@.len() - i,
    {
        let ghost before = jsons(values@);
        let value = text_value(ids[i].clone());
        values.push(value);
        assert(jsons(values@) =~= before.push(json(value)));
        i += 1;
    }
    assert(jsons(values@) =~= wanted);
    let mut entries: Vec<(String, serde_json::Value)> = Vec::new();
    entries.push((key.to_owned(), array_value(values)));
    proof {
        let one = entries_of(entries@);
        assert(one =~= seq![(key@, Json::Array(wanted))]);
        assert(one.drop_last() =~= Seq::empty());
        assert(collected(one.drop_last()) == Seq::<(Seq<char>, Json)>::empty());
        assert(collected(one) =~= seq![(key@, Json::Array(wanted))]);
    }
    object_value(entries)
}

fn call_fetch(stage: Stage, ids: &Vec<String>) -> (r: Call)
    ensures
        r@ == fetch_call(stage, texts(ids@)),
{
    match key_of_body(stage) {
        Some(key) => {
            let query: Vec<(String, String)> = Vec::new();
            assert(pair_texts(query@) =~= Seq::empty());
            Call {
                post: true,
                path: path_of_entities(stage).to_owned(),
                query,
                body: Some(body_ids(key, ids)),
            }
        },
        None => call_get(path_of_entities(stage), query_ids(ids)),
    }
}

// ---------------------------------------------------------------------------------------------
// States

/// What a collector waits for.
pub enum Phase {
    /// Whether the API is available.
    Probe,
    /// The next page of identifiers.
    Query(Pager),
    /// The next batch of documents.
    Fetch(Fetcher),
    /// All documents at once.
    Combined,
    /// Nothing: all is collected.
    Finished,
}

/// What a collector waits for, by its contents.
pub enum PhaseView {
    Probe,
    Query(PagerView),
    Fetch(FetcherView),
    Combined,
    Finished,
}

impl View for Phase {
    type V = PhaseView;

    open spec fn view(&self) -> PhaseView {
        match self {
            Phase::Probe => PhaseView::Probe,
            Phase::Query(pager) => PhaseView::Query(pager@),
            Phase::Fetch(fetcher) => PhaseView::Fetch(fetcher@),
            Phase::Combined => PhaseView::Combined,
            Phase::Finished => PhaseView::Finished,
        }
    }
}

/// The state of a collection.
#[verifier::ext_equal]
pub struct CollectorView {
    pub page_size: u64,
    pub lookback_days: i64,
    pub features: CrowdStrikeFeatures,
    pub stage: Stage,
    pub phase: PhaseView,
    pub data: DataView,
    /// The identifiers of the devices that were found.
    pub device_ids: Seq<Seq<char>>,
    /// The devices before this one were asked for their vulnerabilities.
    pub next_device: nat,
}

/// The start of a collection: the devices come first, and their API counts as available.
pub open spec fn collection_start(
    page_size: u64,
    lookback_days: i64,
    features: CrowdStrikeFeatures,
) -> CollectorView {
    CollectorView {
        page_size,
        lookback_days,
        features,
        stage: Stage::Devices,
        phase: PhaseView::Query(first_page(None, page_size)),
        data: DataView { available: seq![("hosts"@, true)], ..no_data() },
        device_ids: Seq::empty(),
        next_device: 0,
    }
}

/// The request that comes next; nothing where all is collected.
pub open spec fn call_of(c: CollectorView) -> Option<CallView> {
    match c.phase {
        PhaseView::Probe => Some(get_call(query_path(c.stage), limit_query("1"@))),
        PhaseView::Query(pager) => Some(get_call(query_path(c.stage), page_query(pager))),
        PhaseView::Fetch(fetcher) => Some(fetch_call(c.stage, batch_of(fetcher))),
        PhaseView::Combined => Some(get_call(entity_path(c.stage), limit_query("500"@))),
        PhaseView::Finished => None,
    }
}

/// The collection at the start of a part, or of the first one behind it that is wanted. At the end
/// the time is noted.
pub open spec fn begun(c: CollectorView, stage: Stage, now: Seq<char>) -> CollectorView
    decreases 10 - rank(stage),
{
    if stage == Stage::Done {
        CollectorView {
            stage,
            phase: PhaseView::Finished,
            data: DataView { refreshed: now, ..c.data },
            ..c
        }
    } else if is_enabled(c.features, stage) {
        CollectorView { stage, phase: PhaseView::Probe, ..c }
    } else {
        begun(c, following(stage), now)
    }
}

/// What was collected, with the documents of a part.
pub open spec fn with_found(data: DataView, stage: Stage, found: Seq<Json>) -> DataView {
    match stage {
        Stage::Devices => DataView { devices: found, ..data },
        Stage::Prevention => DataView { prevention: indexed(Map::empty(), found, "id"@), ..data },
        Stage::Sensor => DataView { sensor: indexed(Map::empty(), found, "id"@), ..data },
        Stage::Zta => DataView { zta: indexed(Map::empty(), found, "aid"@), ..data },
        Stage::Alerts => DataView { alerts: by_device_of(found), ..data },
        Stage::Detections => DataView { detections: by_device_of(found), ..data },
        Stage::Incidents => DataView { incidents: by_host_of(found), ..data },
        Stage::Vulnerabilities => DataView { vulns: counted(data.vulns, found), ..data },
        Stage::Groups => DataView { groups: indexed(Map::empty(), found, "id"@), ..data },
        Stage::Unmanaged => DataView { unmanaged: found, ..data },
        Stage::Done => data,
    }
}

/// The identifiers of devices, of those that have one.
pub open spec fn ids_of(devices: Seq<Json>) -> Seq<Seq<char>>
    decreases devices.len(),
{
    if devices.len() == 0 {
        Seq::empty()
    } else {
        match text_member(devices.last(), "device_id"@) {
            Some(id) => ids_of(devices.drop_last()).push(id),
            None => ids_of(devices.drop_last()),
        }
    }
}

/// The collection where the vulnerabilities of the next devices are asked for; behind them, if no
/// device is left.
pub open spec fn devices_begun(c: CollectorView, now: Seq<char>) -> CollectorView {
    if c.next_device < c.device_ids.len() {
        let end = batch_end(c.device_ids.len(), c.next_device, DEVICES_AT_ONCE as nat);
        let ids = c.device_ids.subrange(c.next_device as int, end as int);
        CollectorView {
            phase: PhaseView::Query(first_page(Some(devices_filter(ids)), c.page_size)),
            next_device: end,
            ..c
        }
    } else {
        begun(c, following(c.stage), now)
    }
}

/// The collection with the documents of its part, or of some devices, taken.
pub open spec fn found_taken(c: CollectorView, found: Seq<Json>, now: Seq<char>) -> CollectorView {
    let taken = CollectorView {
        data: with_found(c.data, c.stage, found),
        device_ids: if c.stage == Stage::Devices {
            ids_of(found)
        } else {
            c.device_ids
        },
        ..c
    };
    if c.stage == Stage::Vulnerabilities {
        devices_begun(taken, now)
    } else {
        begun(taken, following(c.stage), now)
    }
}

/// The collection where the documents with these identifiers are asked for.
pub open spec fn fetch_begun(
    c: CollectorView,
    ids: Seq<Seq<char>>,
    now: Seq<char>,
) -> CollectorView {
    if ids.len() == 0 {
        found_taken(c, Seq::empty(), now)
    } else {
        CollectorView { phase: PhaseView::Fetch(first_batch(ids, batch_size(c.stage))), ..c }
    }
}

/// The filter for the identifiers of a part.
pub open spec fn stage_filter(stage: Stage, cutoff: Seq<char>) -> Option<Seq<char>> {
    match stage {
        Stage::Alerts => Some(after_filter("created_timestamp"@, cutoff)),
        Stage::Detections => Some(after_filter("created_timestamp"@, cutoff)),
        Stage::Incidents => Some(after_filter("start"@, cutoff)),
        Stage::Unmanaged => Some("entity_type: \"unmanaged\""@),
        _ => None,
    }
}

/// The collection behind a probe that found its API available.
pub open spec fn work_begun(
    c: CollectorView,
    now: Seq<char>,
    cutoff: Seq<char>,
) -> CollectorView {
    match c.stage {
        Stage::Prevention => CollectorView { phase: PhaseView::Combined, ..c },
        Stage::Sensor => CollectorView { phase: PhaseView::Combined, ..c },
        Stage::Groups => CollectorView { phase: PhaseView::Combined, ..c },
        Stage::Zta => fetch_begun(c, c.device_ids, now),
        Stage::Vulnerabilities => devices_begun(CollectorView { next_device: 0, ..c }, now),
        _ => CollectorView {
            phase: PhaseView::Query(first_page(stage_filter(c.stage, cutoff), c.page_size)),
            ..c
        },
    }
}

/// The collection behind a reply. A failure ends it, except that of a probe that only says that
/// its API is not available: its part is skipped.
pub open spec fn reply_taken(
    c: CollectorView,
    reply: Result<Json, FalconError>,
    now: Seq<char>,
    cutoff: Seq<char>,
) -> Result<CollectorView, FalconError> {
    match c.phase {
        PhaseView::Finished => Ok(c),
        PhaseView::Probe => match availability(reply) {
            Err(error) => Err(error),
            Ok(available) => {
                let noted = CollectorView {
                    data: DataView {
                        available: c.data.available.push((api_name(c.stage), available)),
                        ..c.data
                    },
                    ..c
                };
                Ok(
                    if available {
                        work_begun(noted, now, cutoff)
                    } else {
                        begun(noted, following(c.stage), now)
                    },
                )
            },
        },
        PhaseView::Query(pager) => match reply {
            Err(error) => Err(error),
            Ok(document) => {
                let next = next_page(pager, document);
                Ok(
                    if next.done {
                        fetch_begun(c, next.ids, now)
                    } else {
                        CollectorView { phase: PhaseView::Query(next), ..c }
                    },
                )
            },
        },
        PhaseView::Fetch(fetcher) => match reply {
            Err(error) => Err(error),
            Ok(document) => {
                let next = next_batch(fetcher, document);
                Ok(
                    if next.at >= next.ids.len() {
                        found_taken(c, next.found, now)
                    } else {
                        CollectorView { phase: PhaseView::Fetch(next), ..c }
                    },
                )
            },
        },
        PhaseView::Combined => match reply {
            Err(error) => Err(error),
            Ok(document) => Ok(found_taken(c, resources_of(document), now)),
        },
    }
}

proof fn lemma_begun_same(c: CollectorView, d: CollectorView, stage: Stage, now: Seq<char>)
    requires
        d == (CollectorView { phase: d.phase, ..c }),
    ensures
        begun(d, stage, now) == begun(c, stage, now),
    decreases 10 - rank(stage),
{
    if stage != Stage::Done && !is_enabled(c.features, stage) {
        lemma_begun_same(c, d, following(stage), now);
    }
}

/// What comes behind a part, or its next documents, does not depend on what was waited for.
pub proof fn lemma_begun_whatever_phase(c: CollectorView, phase: PhaseView)
    ensures
        forall|found: Seq<Json>, now: Seq<char>| #[trigger]
            found_taken(CollectorView { phase, ..c }, found, now) == found_taken(c, found, now),
        forall|ids: Seq<Seq<char>>, now: Seq<char>| #[trigger]
            fetch_begun(CollectorView { phase, ..c }, ids, now) == fetch_begun(c, ids, now),
{
    let d = CollectorView { phase, ..c };
    assert forall|found: Seq<Json>, now: Seq<char>| #[trigger]
        found_taken(d, found, now) == found_taken(c, found, now) by {
        let data = with_found(c.data, c.stage, found);
        let device_ids = if c.stage == Stage::Devices {
            ids_of(found)
        } else {
            c.device_ids
        };
        lemma_begun_same(
            CollectorView { data, device_ids, ..c },
            CollectorView { data, device_ids, ..d },
            following(c.stage),
            now,
        );
    }
}

/// Whether the next reply may need the time that the lookback begins at.
pub open spec fn needs_cutoff(c: CollectorView) -> bool {
    c.phase is Probe && (c.stage == Stage::Alerts || c.stage == Stage::Detections || c.stage
        == Stage::Incidents)
}

// ---------------------------------------------------------------------------------------------
// The collector

/// A collection under way.
pub struct Collector {
    page_size: u64,
    lookback_days: i64,
    features: CrowdStrikeFeatures,
    stage: Stage,
    phase: Phase,
    data: Data,
    device_ids: Vec<String>,
    next_device: usize,
}

impl View for Collector {
    type V = CollectorView;

    closed spec fn view(&self) -> CollectorView {
        CollectorView {
            page_size: self.page_size,
            lookback_days: self.lookback_days,
            features: self.features,
            stage: self.stage,
            phase: self.phase@,
            data: self.data@,
            device_ids: texts(self.device_ids@),
            next_device: self.next_device as nat,
        }
    }
}

fn find_ids(devices: &Vec<serde_json::Value>) -> (r: Vec<String>)
    ensures
        texts(r@) == ids_of(jsons(devices@)),
{
    let mut out: Vec<String> = Vec::new();
    let mut i: usize = 0;
    let ghost all = jsons(devices@);
    assert(texts(out@) =~= ids_of(all.take(0)));
    while i < devices.len()
        invariant
            i <= devices@.len(),
            all == jsons(devices@),
            texts(out@) == ids_of(all.take(i as int)),
        decreases devices@.len() - i,
    {
        assert(all.take(i + 1).drop_last() == all.take(i as int));
        assert(all.take(i + 1).last() == json(devices@[i as int]));
        match string(&devices[i], "device_id") {
            Some(id) => {
                let ghost before = texts(out@);
                let ghost added = id@;
                out.push(id);
                assert(texts(out@) =~= before.push(added));
            },
            None => {},
        }
        i += 1;
    }
    assert(all.take(devices@.len() as int) == all);
    out
}

/// Puts documents into a new table, under the text of a member.
fn index_new(found: &Vec<serde_json::Value>, key: &str) -> (r: Table<serde_json::Value>)
    ensures
        r.wf(),
        documents(r@) == indexed(Map::empty(), jsons(found@), key@),
{
    let mut table: Table<serde_json::Value> = Table::new();
    assert(documents(table@) =~= Map::empty());
    index(&mut table, found, key);
    table
}

/// Takes the documents of a part.
fn take_found(data: &mut Data, stage: Stage, found: Vec<serde_json::Value>)
    requires
        old(data).wf(),
    ensures
        final(data).wf(),
        final(data)@ == with_found(old(data)@, stage, jsons(found@)),
{
    let ghost before = data@;
    match stage {
        Stage::Devices => {
            data.devices = found;
        },
        Stage::Prevention => {
            data.prevention = index_new(&found, "id");
        },
        Stage::Sensor => {
            data.sensor = index_new(&found, "id");
        },
        Stage::Zta => {
            data.zta = index_new(&found, "aid");
        },
        Stage::Alerts => {
            data.alerts = by_device(&found);
        },
        Stage::Detections => {
            data.detections = by_device(&found);
        },
        Stage::Incidents => {
            data.incidents = by_host(&found);
        },
        Stage::Vulnerabilities => {
            count_all(&mut data.vulns, &found);
        },
        Stage::Groups => {
            data.groups = index_new(&found, "id");
        },
        Stage::Unmanaged => {
            data.unmanaged = found;
        },
        Stage::Done => {},
    }
    assert(data@ =~= with_found(before, stage, jsons(found@)));
}

impl Collector {
    /// Tables are well-formed, and positions stand in their lists.
    pub closed spec fn wf(&self) -> bool {
        &&& self.data.wf()
        &&& self.phase matches Phase::Fetch(fetcher) ==> fetcher.wf()
        &&& self.next_device <= self.device_ids@.len()
        &&& self.stage == Stage::Devices ==> self.next_device == 0
    }

    /// The start of a collection.
    pub fn new(settings: &CrowdStrikeConfig) -> (r: Collector)
        ensures
            r.wf(),
            r@ == collection_start(settings.page_size, settings.lookback_days, settings.features),
    {
        let mut data = Data::new();
        data.available.push(("hosts".to_owned(), true));
        assert(flags(data.available@) =~= seq![("hosts"@, true)]);
        let r = Collector {
            page_size: settings.page_size,
            lookback_days: settings.lookback_days,
            features: settings.features,
            stage: Stage::Devices,
            phase: Phase::Query(Pager::new(None, settings.page_size)),
            data,
            device_ids: Vec::new(),
            next_device: 0,
        };
        assert(r@.data =~= (DataView { available: seq![("hosts"@, true)], ..no_data() }));
        assert(r@ =~= collection_start(
            settings.page_size,
            settings.lookback_days,
            settings.features,
        ));
        r
    }

    /// The request that comes next; nothing where all is collected.
    pub fn next_call(&self) -> (r: Option<Call>)
        requires
            self.wf(),
        ensures
            call_view(r) == call_of(self@),
    {
        match &self.phase {
            Phase::Probe => Some(call_get(path_of_query(self.stage), query_limit("1"))),
            Phase::Query(pager) => Some(call_get(path_of_query(self.stage), pager.query())),
            Phase::Fetch(fetcher) => Some(call_fetch(self.stage, &fetcher.batch())),
            Phase::Combined => Some(call_get(path_of_entities(self.stage), query_limit("500"))),
            Phase::Finished => None,
        }
    }

    fn begin(&mut self, from: Stage, now: &str)
        requires
            old(self).wf(),
            from != Stage::Devices,
        ensures
            final(self).wf(),
            final(self)@ == begun(old(self)@, from, now@),
    {
        let ghost before = self@;
        let mut stage = from;
        while stage != Stage::Done && !enabled(&self.features, stage)
            invariant
                self.wf(),
                self@ == before,
                stage != Stage::Devices,
                begun(before, stage, now@) == begun(before, from, now@),
            decreases 10 - rank(stage),
        {
            stage = next_stage(stage);
        }
        self.stage = stage;
        if stage == Stage::Done {
            self.phase = Phase::Finished;
            self.data.refreshed = now.to_owned();
        } else {
            self.phase = Phase::Probe;
        }
        assert(self@.data =~= begun(before, from, now@).data);
        assert(self@ =~= begun(before, from, now@));
    }

    fn begin_devices(&mut self, now: &str)
        requires
            old(self).wf(),
            old(self)@.stage == Stage::Vulnerabilities,
        ensures
            final(self).wf(),
            final(self)@ == devices_begun(old(self)@, now@),
    {
        let ghost before = self@;
        if self.next_device < self.device_ids.len() {
            let end: usize = end_of_batch(self.device_ids.len(), self.next_device, DEVICES_AT_ONCE);
            let ids = copy_texts(&self.device_ids, self.next_device, end);
            self.phase = Phase::Query(Pager::new(Some(filter_devices(&ids)), self.page_size));
            self.next_device = end;
            assert(self@ =~= devices_begun(before, now@));
        } else {
            self.begin(next_stage(self.stage), now);
        }
    }

    fn finish(&mut self, found: Vec<serde_json::Value>, now: &str)
        requires
            old(self).wf(),
        ensures
            final(self).wf(),
            final(self)@ == found_taken(old(self)@, jsons(found@), now@),
    {
        let ghost before = self@;
        let ghost documents = jsons(found@);
        let stage = self.stage;
        if stage == Stage::Devices {
            self.device_ids = find_ids(&found);
        }
        take_found(&mut self.data, stage, found);
        let ghost taken = CollectorView {
            data: with_found(before.data, before.stage, documents),
            device_ids: if before.stage == Stage::Devices {
                ids_of(documents)
            } else {
                before.device_ids
            },
            ..before
        };
        assert(self@ =~= taken);
        if stage == Stage::Vulnerabilities {
            self.begin_devices(now);
        } else {
            self.begin(next_stage(stage), now);
        }
    }

    fn begin_fetch(&mut self, ids: Vec<String>, now: &str)
        requires
            old(self).wf(),
        ensures
            final(self).wf(),
            final(self)@ == fetch_begun(old(self)@, texts(ids@), now@),
    {
        let ghost before = self@;
        if ids.len() == 0 {
            let none: Vec<serde_json::Value> = Vec::new();
            assert(jsons(none@) =~= Seq::empty());
            self.finish(none, now);
        } else {
            let ghost names = texts(ids@);
            self.phase = Phase::Fetch(Fetcher::new(ids, size_of_batch(self.stage)));
            assert(self@ =~= fetch_begun(before, names, now@));
        }
    }

    fn begin_work(&mut self, now: &str, cutoff: &str)
        requires
            old(self).wf(),
        ensures
            final(self).wf(),
            final(self)@ == work_begun(old(self)@, now@, cutoff@),
    {
        let ghost before = self@;
        match self.stage {
            Stage::Prevention | Stage::Sensor | Stage::Groups => {
                self.phase = Phase::Combined;
            },
            Stage::Zta => {
                let ids = copy_texts(&self.device_ids, 0, self.device_ids.len());
                assert(texts(ids@) =~= before.device_ids);
                self.begin_fetch(ids, now);
                return;
            },
            Stage::Vulnerabilities => {
                self.next_device = 0;
                assert(self@ =~= (CollectorView { next_device: 0, ..before }));
                self.begin_devices(now);
                return;
            },
            Stage::Alerts | Stage::Detections => {
                let filter = filter_after("created_timestamp", cutoff);
                self.phase = Phase::Query(Pager::new(Some(filter), self.page_size));
            },
            Stage::Incidents => {
                let filter = filter_after("start", cutoff);
                self.phase = Phase::Query(Pager::new(Some(filter), self.page_size));
            },
            Stage::Unmanaged => {
                let filter = "entity_type: \"unmanaged\"".to_owned();
                self.phase = Phase::Query(Pager::new(Some(filter), self.page_size));
            },
            Stage::Devices | Stage::Done => {
                self.phase = Phase::Query(Pager::new(None, self.page_size));
            },
        }
        assert(self@ =~= work_begun(before, now@, cutoff@));
    }

    /// Takes a reply, with the time and the time that the lookback begins at as texts.
    pub fn take_reply(
        &mut self,
        reply: Result<serde_json::Value, FalconError>,
        now: &str,
        cutoff: &str,
    ) -> (r: Result<(), FalconError>)
        requires
            old(self).wf(),
        ensures
            final(self).wf(),
            match reply_taken(old(self)@, reply_json(reply), now@, cutoff@) {
                Ok(next) => r == Ok::<(), FalconError>(()) && final(self)@ == next,
                Err(error) => r == Err::<(), FalconError>(error) && final(self)@ == old(self)@,
            },
    {
        let ghost before = self@;
        match &self.phase {
            Phase::Finished => {
                return Ok(());
            },
            Phase::Probe => {
                let available: bool = match judge_probe(&reply) {
                    Ok(available) => available,
                    Err(error) => {
                        return Err(error);
                    },
                };
                let ghost earlier = flags(self.data.available@);
                self.data.available.push((name_of(self.stage).to_owned(), available));
                assert(flags(self.data.available@) =~= earlier.push(
                    (api_name(before.stage), available),
                ));
                let ghost noted = CollectorView {
                    data: DataView {
                        available: before.data.available.push((api_name(before.stage), available)),
                        ..before.data
                    },
                    ..before
                };
                assert(self@.data =~= noted.data);
                assert(self@ =~= noted);
                if available {
                    self.begin_work(now, cutoff);
                } else {
                    self.begin(next_stage(self.stage), now);
                }
                return Ok(());
            },
            _ => {},
        }
        let document = match reply {
            Ok(document) => document,
            Err(error) => {
                return Err(error);
            },
        };
        let mut phase = Phase::Combined;
        std::mem::swap(&mut phase, &mut self.phase);
        proof {
            assert(self@ =~= (CollectorView { phase: PhaseView::Combined, ..before }));
            lemma_begun_whatever_phase(before, PhaseView::Combined);
        }
        match phase {
            Phase::Query(mut pager) => {
                pager.take(&document);
                if pager.done {
                    let Pager { ids, .. } = pager;
                    self.begin_fetch(ids, now);
                } else {
                    self.phase = Phase::Query(pager);
                    assert(self@ =~= (CollectorView { phase: PhaseView::Query(pager@), ..before }));
                }
            },
            Phase::Fetch(mut fetcher) => {
                fetcher.take(&document);
                if fetcher.is_done() {
                    let Fetcher { found, .. } = fetcher;
                    self.finish(found, now);
                } else {
                    self.phase = Phase::Fetch(fetcher);
                    assert(self@ =~= (CollectorView {
                        phase: PhaseView::Fetch(fetcher@),
                        ..before
                    }));
                }
            },
            _ => {
                self.finish(resources(&document), now);
            },
        }
        Ok(())
    }

    /// Takes a reply that came at an instant.
    pub fn on_reply(
        &mut self,
        reply: Result<serde_json::Value, FalconError>,
        instant: i128,
    ) -> (r: Result<(), FalconError>)
        requires
            old(self).wf(),
            has_date(instant as int),
            needs_cutoff(old(self)@) ==> reaches_back(instant, old(self)@.lookback_days),
        ensures
            final(self).wf(),
            match reply_taken(
                old(self)@,
                reply_json(reply),
                or_empty(rfc3339(instant)),
                or_empty(rfc3339(days_before(instant, old(self)@.lookback_days))),
            ) {
                Ok(next) => r == Ok::<(), FalconError>(()) && final(self)@ == next,
                Err(error) => r == Err::<(), FalconError>(error) && final(self)@ == old(self)@,
            },
    {
        let time = now(instant);
        let since = if self.looks_back() {
            cutoff(instant, self.lookback_days)
        } else {
            String::new()
        };
        self.take_reply(reply, time.as_str(), since.as_str())
    }

    /// Whether the next reply may need the time that the lookback begins at.
    pub fn looks_back(&self) -> (r: bool)
        ensures
            r == needs_cutoff(self@),
    {
        match self.phase {
            Phase::Probe => match self.stage {
                Stage::Alerts | Stage::Detections | Stage::Incidents => true,
                _ => false,
            },
            _ => false,
        }
    }

    /// What was collected.
    pub fn into_data(self) -> (r: Data)
        requires
            self.wf(),
        ensures
            r.wf(),
            r@ == self@.data,
    {
        self.data
    }
}

} // verus!
