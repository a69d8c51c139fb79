//! The document that a client gets, written piece by piece.
use crate::falcon::data::{documents, flags, option_json, Data, DataView};
use crate::falcon::device::{
    add_field, find_mac, mac_address, managed, managed_record, no_fields, number, overall_score,
    unmanaged_asset, unmanaged_record, zta_overall, Fields,
};
use crate::json::{
    bool_value, collected, comma, entries_of, json, json_text, jsons, number_value, object_value,
    text_value, write_json, Json,
};
use crate::text::{chars_of, joined, text_of};
use vstd::prelude::*;

verus! {

// ---------------------------------------------------------------------------------------------
// What is reported

/// The documents of a list that have a MAC address, in order.
pub open spec fn with_mac(values: Seq<Json>) -> Seq<Json>
    decreases values.len(),
{
    if values.len() == 0 {
        Seq::empty()
    } else if mac_address(values.last()) is Some {
        with_mac(values.drop_last()).push(values.last())
    } else {
        with_mac(values.drop_last())
    }
}

/// What is reported of what was collected: devices and assets only where they have a MAC address.
pub open spec fn reported(data: DataView) -> DataView {
    DataView { devices: with_mac(data.devices), unmanaged: with_mac(data.unmanaged), ..data }
}

/// The availability of APIs, as fields.
pub open spec fn status_fields(available: Seq<(Seq<char>, bool)>) -> Fields {
    available.map_values(|e: (Seq<char>, bool)| (e.0, Json::Bool(e.1)))
}

/// The numbers at the end of a report, as fields.
pub open spec fn stats_fields(data: DataView) -> Fields {
    seq![
        ("total_devices"@, number(data.devices.len())),
        ("with_mac"@, number(data.devices.len())),
        ("without_mac"@, number(0)),
        ("unmanaged"@, number(data.unmanaged.len())),
        ("with_zta"@, number(data.zta.dom().len())),
        ("with_alerts"@, number(data.alerts.dom().len())),
        ("with_detections"@, number(data.detections.dom().len())),
        ("with_incidents"@, number(data.incidents.dom().len())),
        ("with_vulns"@, number(data.vulns.dom().len())),
    ]
}

/// What stands at the end of a report, as fields.
pub open spec fn tail_fields(data: DataView) -> Fields {
    seq![
        ("total"@, number(data.devices.len())),
        ("totalUnmanaged"@, number(data.unmanaged.len())),
        ("lastRefresh"@, Json::Text(data.refreshed)),
        ("apiStatus"@, Json::Object(collected(status_fields(data.available)))),
        ("stats"@, Json::Object(collected(stats_fields(data)))),
    ]
}

/// What stands at the end of a report.
pub open spec fn tail_of(data: DataView) -> Json {
    Json::Object(collected(tail_fields(data)))
}

/// The records of devices, given the points for their zero-trust assessments.
pub open spec fn endpoint_records(data: DataView, points: Seq<u64>) -> Seq<Json> {
    Seq::new(data.devices.len(), |i: int| managed_record(data.devices[i], data, points[i]))
}

/// The records of assets.
pub open spec fn asset_records(data: DataView) -> Seq<Json> {
    data.unmanaged.map_values(|asset: Json| unmanaged_asset(asset, data.refreshed))
}

/// The whole document.
pub open spec fn whole_report(data: DataView, points: Seq<u64>) -> Json {
    Json::Object(
        seq![
            ("endpoints"@, Json::Array(endpoint_records(data, points))),
            ("unmanaged"@, Json::Array(asset_records(data))),
        ] + collected(tail_fields(data)),
    )
}

// ---------------------------------------------------------------------------------------------
// Pieces

/// The part of the document that comes next.
#[derive(Debug, Clone, Copy, PartialEq, Eq, Structural)]
pub enum Part {
    Head,
    Endpoints,
    Unmanaged,
    Closed,
}

/// How far a document is written.
#[verifier::ext_equal]
pub struct ReportView {
    pub data: DataView,
    pub part: Part,
    /// The records of the part that are written.
    pub at: nat,
}

/// Before the first piece.
pub open spec fn report_start(data: DataView) -> ReportView {
    ReportView { data: reported(data), part: Part::Head, at: 0 }
}

/// The next piece. A device's points are given; elsewhere they do not matter.
pub open spec fn piece_of(r: ReportView, points: u64) -> Option<Seq<char>> {
    match r.part {
        Part::Head => Some("{\"endpoints\":["@),
        Part::Endpoints => Some(
            if r.at < r.data.devices.len() {
                comma(r.at as int) + json_text(
                    managed_record(r.data.devices[r.at as int], r.data, points),
                )
            } else {
                "],\"unmanaged\":["@
            },
        ),
        Part::Unmanaged => Some(
            if r.at < r.data.unmanaged.len() {
                comma(r.at as int) + json_text(
                    unmanaged_asset(r.data.unmanaged[r.at as int], r.data.refreshed),
                )
            } else {
                "],"@ + json_text(tail_of(r.data)).skip(1)
            },
        ),
        Part::Closed => None,
    }
}

/// Behind the next piece.
pub open spec fn piece_written(r: ReportView) -> ReportView {
    match r.part {
        Part::Head => ReportView { part: Part::Endpoints, at: 0, ..r },
        Part::Endpoints => if r.at < r.data.devices.len() {
            ReportView { at: r.at + 1, ..r }
        } else {
            ReportView { part: Part::Unmanaged, at: 0, ..r }
        },
        Part::Unmanaged => if r.at < r.data.unmanaged.len() {
            ReportView { at: r.at + 1, ..r }
        } else {
            ReportView { part: Part::Closed, at: 0, ..r }
        },
        Part::Closed => r,
    }
}

/// A document that is being written.
pub struct Report {
    data: Data,
    part: Part,
    at: usize,
}

impl View for Report {
    type V = ReportView;

    closed spec fn view(&self) -> ReportView {
        ReportView { data: self.data@, part: self.part, at: self.at as nat }
    }
}

fn keep_with_mac(values: &Vec<serde_json::Value>) -> (r: Vec<serde_json::Value>)
    ensures
        jsons(r@) == with_mac(jsons(values@)),
{
    let mut out: Vec<serde_json::Value> = Vec::new();
    let mut i: usize = 0;
    let ghost all = jsons(values@);
    assert(jsons(out@) =~= with_mac(all.take(0)));
    while i < values.len()
        invariant
            i <= values@.len(),
            all == jsons(values@),
            jsons(out@) == with_mac(all.take(i as int)),
        decreases values@.len() - i,
    {
        assert(all.take(i + 1).drop_last() == all.take(i as int));
        assert(all.take(i + 1).last() == json(values@[i as int]));
        if find_mac(&values[i]).is_some() {
            let ghost before = jsons(out@);
            out.push(values[i].clone());
            assert(jsons(out@) =~= before.push(json(values@[i as int])));
        }
        i += 1;
    }
    assert(all.take(values@.len() as int) == all);
    out
}

fn add_number(fields: &mut Vec<(String, serde_json::Value)>, name: &str, n: usize)
    ensures
        entries_of(final(fields)@) == entries_of(old(fields)@).push((name@, number(n as nat))),
{
    add_field(fields, name, number_value(n as u64));
}

fn list_stats(data: &Data) -> (r: serde_json::Value)
    requires
        data.wf(),
    ensures
        json(r) == Json::Object(collected(stats_fields(data@))),
{
    let mut list = no_fields();
    let fields = &mut list;
    add_number(fields, "total_devices", data.devices.len());
    add_number(fields, "with_mac", data.devices.len());
    add_number(fields, "without_mac", 0);
    add_number(fields, "unmanaged", data.unmanaged.len());
    add_number(fields, "with_zta", data.zta.len());
    add_number(fields, "with_alerts", data.alerts.len());
    add_number(fields, "with_detections", data.detections.len());
    add_number(fields, "with_incidents", data.incidents.len());
    add_number(fields, "with_vulns", data.vulns.len());
    proof {
        assert(data@.zta.dom() =~= data.zta@.dom());
        assert(data@.alerts.dom() =~= data.alerts@.dom());
        assert(data@.detections.dom() =~= data.detections@.dom());
        assert(data@.incidents.dom() =~= data.incidents@.dom());
        assert(data@.vulns.dom() =~= data.vulns@.dom());
    }
    assert(entries_of(list@) =~= stats_fields(data@));
    object_value(list)
}

fn list_status(available: &Vec<(String, bool)>) -> (r: serde_json::Value)
    ensures
        json(r) == Json::Object(collected(status_fields(flags(available@)))),
{
    let mut list: Vec<(String, serde_json::Value)> = Vec::new();
    let ghost wanted = status_fields(flags(available@));
    let mut i: usize = 0;
    while i < available.len()
        invariant
            i <= available@.len(),
            wanted == status_fields(flags(available@)),
            entries_of(list@) == wanted.take(i as int),
        decreases available@.len() - i,
    {
        let ghost before = entries_of(list@);
        let value = bool_value(available[i].1);
        list.push((available[i].0.clone(), value));
        assert(entries_of(list@) =~= before.push((available@[i as int].0@, json(value))));
        i += 1;
    }
    assert(entries_of(list@) =~= wanted);
    object_value(list)
}

fn list_tail(data: &Data) -> (r: serde_json::Value)
    requires
        data.wf(),
    ensures
        json(r) == tail_of(data@),
{
    let mut list = no_fields();
    let fields = &mut list;
    add_number(fields, "total", data.devices.len());
    add_number(fields, "totalUnmanaged", data.unmanaged.len());
    add_field(fields, "lastRefresh", text_value(data.refreshed.clone()));
    add_field(fields, "apiStatus", list_status(&data.available));
    add_field(fields, "stats", list_stats(data));
    assert(entries_of(list@) =~= tail_fields(data@));
    object_value(list)
}

/// A piece for a record: a comma before it, except before the first.
fn record_piece(at: usize, record: &serde_json::Value) -> (r: String)
    ensures
        r@ == comma(at as int) + json_text(json(*record)),
{
    let text = write_json(record);
    if at > 0 {
        let r = joined(",", text.as_str());
        proof {
            reveal_strlit(",");
            assert(","@ =~= seq![',']);
        }
        r
    } else {
        assert(comma(0) + text@ =~= text@);
        text
    }
}

impl Report {
    /// Tables are well-formed.
    pub closed spec fn wf(&self) -> bool {
        self.data.wf()
    }

    /// Before the first piece.
    pub fn new(data: Data) -> (r: Report)
        requires
            data.wf(),
        ensures
            r.wf(),
            r@ == report_start(data@),
    {
        let devices = keep_with_mac(&data.devices);
        let unmanaged = keep_with_mac(&data.unmanaged);
        let r = Report { data: Data { devices, unmanaged, ..data }, part: Part::Head, at: 0 };
        assert(r@.data =~= reported(data@));
        r
    }

    /// The overall zero-trust score of the device whose record comes next; nothing where no device
    /// comes next, or it has no score.
    pub fn next_overall(&self) -> (r: Option<&serde_json::Value>)
        requires
            self.wf(),
        ensures
            option_json(r) == (if self@.part == Part::Endpoints && self@.at
                < self@.data.devices.len() {
                overall_score(self@.data.devices[self@.at as int], self@.data)
            } else {
                None
            }),
    {
        if self.part == Part::Endpoints && self.at < self.data.devices.len() {
            zta_overall(&self.data.devices[self.at], &self.data)
        } else {
            None
        }
    }

    /// The next piece; nothing where the document is complete. The points for the zero-trust
    /// assessment of the device whose record comes next are given.
    pub fn next_piece(&mut self, zta_points: u64) -> (r: Option<String>)
        requires
            old(self).wf(),
        ensures
            final(self).wf(),
            match r {
                Some(piece) => piece_of(old(self)@, zta_points) == Some(piece@),
                None => piece_of(old(self)@, zta_points) is None,
            },
            final(self)@ == piece_written(old(self)@),
    {
        match self.part {
            Part::Head => {
                self.part = Part::Endpoints;
                self.at = 0;
                Some("{\"endpoints\":[".to_owned())
            },
            Part::Endpoints => {
                if self.at < self.data.devices.len() {
                    let record = managed(&self.data.devices[self.at], &self.data, zta_points);
                    let piece = record_piece(self.at, &record);
                    self.at = self.at + 1;
                    Some(piece)
                } else {
                    self.part = Part::Unmanaged;
                    self.at = 0;
                    Some("],\"unmanaged\":[".to_owned())
                }
            },
            Part::Unmanaged => {
                if self.at < self.data.unmanaged.len() {
                    let record = unmanaged_record(
                        &self.data.unmanaged[self.at],
                        self.data.refreshed.as_str(),
                    );
                    let piece = record_piece(self.at, &record);
                    self.at = self.at + 1;
                    Some(piece)
                } else {
                    let tail = write_json(&list_tail(&self.data));
                    let chars = chars_of(tail.as_str());
                    let rest = text_of(&chars, 1, chars.len());
                    assert(rest@ =~= json_text(tail_of(self.data@)).skip(1));
                    self.part = Part::Closed;
                    self.at = 0;
                    Some(joined("],", rest.as_str()))
                }
            },
            Part::Closed => None,
        }
    }
}

} // verus!
