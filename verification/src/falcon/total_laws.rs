//! What holds of the totals and the lists of every report.
use crate::falcon::data::DataView;
use crate::falcon::device::{managed_record, unmanaged_asset};
use crate::falcon::mac::mac_of;
use crate::falcon::report::{
    asset_records, endpoint_records, reported, stats_fields, status_fields, tail_fields, tail_of,
    whole_report, with_mac,
};
use crate::json::{collected, law_collected, member_of, Json};
use crate::text::decimal_text;
use vstd::prelude::*;

verus! {

proof fn lemma_with_mac(values: Seq<Json>)
    ensures
        with_mac(values) == values.filter(
            |v: Json|
                mac_of(
                    match member_of(v, "mac_address"@) {
                        Some(Json::Text(text)) => Some(text),
                        _ => None,
                    },
                ) is Some,
        ),
    decreases values.len(),
{
    reveal(Seq::filter);
    if values.len() > 0 {
        lemma_with_mac(values.drop_last());
    }
}

/// A report is made of the devices and of the assets that have a MAC address, all of them and in
/// order. Everything else that was collected stays.
pub proof fn law_reported(data: DataView)
    ensures
        reported(data) == (DataView {
            devices: data.devices.filter(
                |v: Json|
                    mac_of(
                        match member_of(v, "mac_address"@) {
                            Some(Json::Text(text)) => Some(text),
                            _ => None,
                        },
                    ) is Some,
            ),
            unmanaged: data.unmanaged.filter(
                |v: Json|
                    mac_of(
                        match member_of(v, "mac_address"@) {
                            Some(Json::Text(text)) => Some(text),
                            _ => None,
                        },
                    ) is Some,
            ),
            ..data
        }),
{
    lemma_with_mac(data.devices);
    lemma_with_mac(data.unmanaged);
}

/// A report lists a record for each device, with its own points, and one for each asset, in order.
/// Behind the two lists comes what stands at its end.
pub proof fn law_listed(data: DataView, points: Seq<u64>, i: int)
    ensures
        ({
            let endpoints = endpoint_records(data, points);
            let assets = asset_records(data);
            &&& endpoints.len() == data.devices.len()
            &&& assets.len() == data.unmanaged.len()
            &&& 0 <= i < data.devices.len() ==> endpoints[i] == managed_record(
                data.devices[i],
                data,
                points[i],
            )
            &&& 0 <= i < data.unmanaged.len() ==> assets[i] == unmanaged_asset(
                data.unmanaged[i],
                data.refreshed,
            )
            &&& whole_report(data, points) matches Json::Object(members) && members.len() >= 2
                && members[0] == ("endpoints"@, Json::Array(endpoints)) && members[1] == (
                "unmanaged"@,
                Json::Array(assets),
            ) && Json::Object(members.skip(2)) == tail_of(data)
        }),
{
    let members = whole_report(data, points)->Object_0;
    assert(members.skip(2) =~= collected(tail_fields(data)));
}

spec fn stats_name(i: int) -> Seq<char> {
    if i == 0 {
        "total_devices"@
    } else if i == 1 {
        "with_mac"@
    } else if i == 2 {
        "without_mac"@
    } else if i == 3 {
        "unmanaged"@
    } else if i == 4 {
        "with_zta"@
    } else if i == 5 {
        "with_alerts"@
    } else if i == 6 {
        "with_detections"@
    } else if i == 7 {
        "with_incidents"@
    } else {
        "with_vulns"@
    }
}

spec fn stats_place(s: Seq<char>) -> int {
    if s.len() == 13 && s[5] == '_' {
        0
    } else if s.len() == 8 && s[5] == 'm' {
        1
    } else if s.len() == 11 && s[5] == 'u' {
        2
    } else if s.len() == 9 && s[5] == 'a' {
        3
    } else if s.len() == 8 && s[5] == 'z' {
        4
    } else if s.len() == 11 && s[5] == 'a' {
        5
    } else if s.len() == 15 && s[5] == 'd' {
        6
    } else if s.len() == 14 && s[5] == 'i' {
        7
    } else {
        8
    }
}

proof fn lemma_stats_place(i: int)
    requires
        0 <= i < 9,
    ensures
        stats_place(stats_name(i)) == i,
{
    if i == 0 {
        reveal_strlit("total_devices");
    } else if i == 1 {
        reveal_strlit("with_mac");
    } else if i == 2 {
        reveal_strlit("without_mac");
    } else if i == 3 {
        reveal_strlit("unmanaged");
    } else if i == 4 {
        reveal_strlit("with_zta");
    } else if i == 5 {
        reveal_strlit("with_alerts");
    } else if i == 6 {
        reveal_strlit("with_detections");
    } else if i == 7 {
        reveal_strlit("with_incidents");
    } else {
        reveal_strlit("with_vulns");
    }
}
spec fn tail_name(i: int) -> Seq<char> {
    if i == 0 {
        "total"@
    } else if i == 1 {
        "totalUnmanaged"@
    } else if i == 2 {
        "lastRefresh"@
    } else if i == 3 {
        "apiStatus"@
    } else {
        "stats"@
    }
}

spec fn tail_place(s: Seq<char>) -> int {
    if s.len() == 5 && s[0] == 't' {
        0
    } else if s.len() == 14 && s[0] == 't' {
        1
    } else if s.len() == 11 && s[0] == 'l' {
        2
    } else if s.len() == 9 && s[0] == 'a' {
        3
    } else {
        4
    }
}

proof fn lemma_tail_place(i: int)
    requires
        0 <= i < 5,
    ensures
        tail_place(tail_name(i)) == i,
{
    if i == 0 {
        reveal_strlit("total");
    } else if i == 1 {
        reveal_strlit("totalUnmanaged");
    } else if i == 2 {
        reveal_strlit("lastRefresh");
    } else if i == 3 {
        reveal_strlit("apiStatus");
    } else {
        reveal_strlit("stats");
    }
}
proof fn lemma_stats_field(data: DataView, i: int)
    requires
        0 <= i < 9,
    ensures
        member_of(Json::Object(collected(stats_fields(data))), stats_name(i)) == Some(stats_fields(data)[i].1),
{
    let all = stats_fields(data);
    assert(all.len() == 9);
    assert forall|j: int| 0 <= j < 9 implies (#[trigger] all[j]).0 == stats_name(j) by {}
    lemma_stats_place(i);
    assert forall|j: int| i < j < all.len() implies (#[trigger] all[j]).0 != stats_name(i) by {
        lemma_stats_place(j);
    }
    assert(all[i].0 == stats_name(i));
    law_collected(all, stats_name(i), i);
}

proof fn lemma_tail_field(data: DataView, i: int)
    requires
        0 <= i < 5,
    ensures
        member_of(tail_of(data), tail_name(i)) == Some(tail_fields(data)[i].1),
{
    let all = tail_fields(data);
    assert(all.len() == 5);
    assert forall|j: int| 0 <= j < 5 implies (#[trigger] all[j]).0 == tail_name(j) by {}
    lemma_tail_place(i);
    assert forall|j: int| i < j < all.len() implies (#[trigger] all[j]).0 != tail_name(i) by {
        lemma_tail_place(j);
    }
    assert(all[i].0 == tail_name(i));
    law_collected(all, tail_name(i), i);
}

/// At its end a report says how many devices and assets it lists, when the data is from, which APIs
/// were available, and how many devices had something of each kind.
pub proof fn law_totals(data: DataView)
    ensures
        ({
            let tail = tail_of(data);
            let stats = Json::Object(collected(stats_fields(data)));
            &&& member_of(tail, "total"@) == Some(Json::Number(decimal_text(data.devices.len())))
            &&& member_of(tail, "totalUnmanaged"@) == Some(
                Json::Number(decimal_text(data.unmanaged.len())),
            )
            &&& member_of(tail, "lastRefresh"@) == Some(Json::Text(data.refreshed))
            &&& member_of(tail, "apiStatus"@) == Some(
                Json::Object(collected(status_fields(data.available))),
            )
            &&& member_of(tail, "stats"@) == Some(stats)
            &&& member_of(stats, "total_devices"@) == Some(Json::Number(decimal_text(data.devices.len())))
            &&& member_of(stats, "with_mac"@) == Some(Json::Number(decimal_text(data.devices.len())))
            &&& member_of(stats, "without_mac"@) == Some(Json::Number(decimal_text(0)))
            &&& member_of(stats, "unmanaged"@) == Some(Json::Number(decimal_text(data.unmanaged.len())))
            &&& member_of(stats, "with_zta"@) == Some(Json::Number(decimal_text(data.zta.dom().len())))
            &&& member_of(stats, "with_alerts"@) == Some(Json::Number(decimal_text(data.alerts.dom().len())))
            &&& member_of(stats, "with_detections"@) == Some(Json::Number(decimal_text(data.detections.dom().len())))
            &&& member_of(stats, "with_incidents"@) == Some(Json::Number(decimal_text(data.incidents.dom().len())))
            &&& member_of(stats, "with_vulns"@) == Some(Json::Number(decimal_text(data.vulns.dom().len())))
        }),
{
    lemma_tail_field(data, 0);
    lemma_tail_field(data, 1);
    lemma_tail_field(data, 2);
    lemma_tail_field(data, 3);
    lemma_tail_field(data, 4);
    lemma_stats_field(data, 0);
    lemma_stats_field(data, 1);
    lemma_stats_field(data, 2);
    lemma_stats_field(data, 3);
    lemma_stats_field(data, 4);
    lemma_stats_field(data, 5);
    lemma_stats_field(data, 6);
    lemma_stats_field(data, 7);
    lemma_stats_field(data, 8);
}

/// An API is shown as available or not as it was last noted, and one that was not noted is not shown.
pub proof fn law_api_status(available: Seq<(Seq<char>, bool)>, name: Seq<char>, i: int)
    requires
        -1 <= i < available.len(),
        i >= 0 ==> available[i].0 == name,
        forall|j: int| i < j < available.len() ==> (#[trigger] available[j]).0 != name,
    ensures
        member_of(Json::Object(collected(status_fields(available))), name) == (if i >= 0 {
            Some(Json::Bool(available[i].1))
        } else {
            None
        }),
{
    let fields = status_fields(available);
    assert forall|j: int| i < j < fields.len() implies (#[trigger] fields[j]).0 != name by {
        assert(available[j].0 != name);
    }
    law_collected(fields, name, i);
}

} // verus!
