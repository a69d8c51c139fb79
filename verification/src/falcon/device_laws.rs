//! What holds of the records and the risk of every device.
use crate::falcon::data::{all_under, DataView};
use crate::falcon::device::{
    asset_fields, compliance_of, count_fields, identity_fields, managed_record, names_of,
    overall_score, policy_fields, risk_fields, risk_of, severity_count, texts_among,
    unmanaged_asset, exposure_of, ExposureView, Fields,
};
use crate::falcon::mac::mac_of;
use crate::falcon::score::{no_vulnerabilities, whole_part};
use crate::json::{at_pointer, float_text, json_or_null, json_text, law_collected, member_of, Json};
use crate::text::{decimal_text, lowered, occurs, separated};
use vstd::prelude::*;

verus! {

// ---------------------------------------------------------------------------------------------
// Risk

/// The smaller of two numbers.
pub open spec fn at_most(n: nat, limit: nat) -> nat {
    if n < limit {
        n
    } else {
        limit
    }
}

/// Each part of an exposure weighs what it should, whatever the others are: so many more of it raise
/// the risk by its weight for each, up to a hundred.
pub proof fn law_risk_weights(e: ExposureView, k: nat)
    ensures
        risk_of(ExposureView { zta_points: e.zta_points + k, ..e }) == at_most(risk_of(e) + k, 100),
        risk_of(ExposureView { alerts_critical: e.alerts_critical + k, ..e }) == at_most(
            risk_of(e) + 12 * k,
            100,
        ),
        risk_of(ExposureView { alerts_high: e.alerts_high + k, ..e }) == at_most(
            risk_of(e) + 8 * k,
            100,
        ),
        risk_of(ExposureView { detections_critical: e.detections_critical + k, ..e }) == at_most(
            risk_of(e) + 12 * k,
            100,
        ),
        risk_of(ExposureView { detections_high: e.detections_high + k, ..e }) == at_most(
            risk_of(e) + 8 * k,
            100,
        ),
        risk_of(ExposureView { incidents: e.incidents + k, ..e }) == at_most(
            risk_of(e) + 10 * k,
            100,
        ),
        risk_of(ExposureView { vulns_critical: e.vulns_critical + k, ..e }) == at_most(
            risk_of(e) + 5 * k,
            100,
        ),
        risk_of(ExposureView { vulns_high: e.vulns_high + k, ..e }) == at_most(
            risk_of(e) + 2 * k,
            100,
        ),
{
    crate::falcon::score::law_cvss_points(e.max_cvss);
}

/// A part of an exposure alone gives its weight for each, up to a hundred; nothing gives no risk; and
/// the highest score adds its whole part.
pub proof fn law_risk_alone(k: nat, score: u64, e: ExposureView)
    ensures
        ({
            let nothing = ExposureView {
                zta_points: 0,
                alerts_critical: 0,
                alerts_high: 0,
                detections_critical: 0,
                detections_high: 0,
                incidents: 0,
                vulns_critical: 0,
                vulns_high: 0,
                max_cvss: 0,
            };
            &&& risk_of(nothing) == 0
            &&& risk_of(ExposureView { zta_points: k, ..nothing }) == at_most(k, 100)
            &&& risk_of(ExposureView { alerts_critical: k, ..nothing }) == at_most(12 * k, 100)
            &&& risk_of(ExposureView { alerts_high: k, ..nothing }) == at_most(8 * k, 100)
            &&& risk_of(ExposureView { detections_critical: k, ..nothing }) == at_most(12 * k, 100)
            &&& risk_of(ExposureView { detections_high: k, ..nothing }) == at_most(8 * k, 100)
            &&& risk_of(ExposureView { incidents: k, ..nothing }) == at_most(10 * k, 100)
            &&& risk_of(ExposureView { vulns_critical: k, ..nothing }) == at_most(5 * k, 100)
            &&& risk_of(ExposureView { vulns_high: k, ..nothing }) == at_most(2 * k, 100)
            &&& risk_of(ExposureView { max_cvss: score, ..nothing }) == whole_part(score, 10)
        }),
        risk_of(ExposureView { max_cvss: score, ..e }) == at_most(
            risk_of(ExposureView { max_cvss: 0, ..e }) + whole_part(score, 10) as nat,
            100,
        ),
{
    crate::falcon::score::law_cvss_points(0);
    crate::falcon::score::law_cvss_points(score);
}

/// A risk from seventy on is critical, from fifty on against the rules, from thirty on a warning, and
/// below that as it should be.
pub proof fn law_compliance(risk: nat)
    ensures
        risk >= 70 ==> compliance_of(risk) == "Critical"@,
        50 <= risk < 70 ==> compliance_of(risk) == "NonCompliant"@,
        30 <= risk < 50 ==> compliance_of(risk) == "Warning"@,
        risk < 30 ==> compliance_of(risk) == "Compliant"@,
{
}

// ---------------------------------------------------------------------------------------------
// Parts

/// The documents of a severity are those whose text, in lower case, holds the word for it.
pub proof fn law_severity(values: Seq<Json>, word: Seq<char>)
    ensures
        severity_count(values, word) == values.filter(
            |v: Json| occurs(lowered(json_text(v)), word),
        ).len(),
    decreases values.len(),
{
    reveal(Seq::filter);
    if values.len() > 0 {
        law_severity(values.drop_last(), word);
    }
}

/// The texts among the items of a list are those items that are texts, in order.
pub proof fn law_texts_among(values: Seq<Json>)
    ensures
        texts_among(values) == values.filter(|v: Json| v is Text).map_values(|v: Json| v->Text_0),
    decreases values.len(),
{
    reveal(Seq::filter);
    let p = |v: Json| v is Text;
    let f = |v: Json| v->Text_0;
    let all = values.filter(p).map_values(f);
    if values.len() > 0 {
        law_texts_among(values.drop_last());
        let front = values.drop_last().filter(p);
        if p(values.last()) {
            assert(all =~= front.map_values(f).push(f(values.last())));
        }
    } else {
        assert(all =~= Seq::empty());
    }
}

/// The names of groups are found by their identifiers, in order; a group that is not known or has no
/// name is left out.
pub proof fn law_group_names(groups: Map<Seq<char>, Json>, ids: Seq<Seq<char>>, id: Seq<char>)
    ensures
        names_of(groups, Seq::empty()) == Seq::<Seq<char>>::empty(),
        groups.dom().contains(id) ==> (match member_of(groups[id], "name"@) {
            Some(Json::Text(name)) => names_of(groups, ids.push(id)) == names_of(groups, ids).push(
                name,
            ),
            _ => names_of(groups, ids.push(id)) == names_of(groups, ids),
        }),
        !groups.dom().contains(id) ==> names_of(groups, ids.push(id)) == names_of(groups, ids),
{
    assert(ids.push(id).drop_last() == ids);
}

/// What is missing is null, and what is there is copied as it is.
pub proof fn law_or_null(value: Json)
    ensures
        json_or_null(Some(value)) == value,
        json_or_null(None) == Json::Null,
{
}

// ---------------------------------------------------------------------------------------------
// Records of managed devices

spec fn managed_name(i: int) -> Seq<char> {
    if i == 0 {
        "assetId"@
    } else if i == 1 {
        "assetMacAddress"@
    } else if i == 2 {
        "assetIpAddress"@
    } else if i == 3 {
        "assetExternalIp"@
    } else if i == 4 {
        "assetHostname"@
    } else if i == 5 {
        "osVersion"@
    } else if i == 6 {
        "platformName"@
    } else if i == 7 {
        "platformId"@
    } else if i == 8 {
        "systemManufacturer"@
    } else if i == 9 {
        "systemProductName"@
    } else if i == 10 {
        "serialNumber"@
    } else if i == 11 {
        "machineDomain"@
    } else if i == 12 {
        "agentVersion"@
    } else if i == 13 {
        "lastSeen"@
    } else if i == 14 {
        "firstSeen"@
    } else if i == 15 {
        "deviceStatus"@
    } else if i == 16 {
        "ztaOverallScore"@
    } else if i == 17 {
        "preventionPolicyId"@
    } else if i == 18 {
        "preventionPolicyName"@
    } else if i == 19 {
        "sensorPolicyId"@
    } else if i == 20 {
        "sensorPolicyName"@
    } else if i == 21 {
        "hostGroupIds"@
    } else if i == 22 {
        "hostGroupNames"@
    } else if i == 23 {
        "alertCriticalCount"@
    } else if i == 24 {
        "alertHighCount"@
    } else if i == 25 {
        "alertTotalCount"@
    } else if i == 26 {
        "detectionCriticalCount"@
    } else if i == 27 {
        "detectionHighCount"@
    } else if i == 28 {
        "detectionTotalCount"@
    } else if i == 29 {
        "incidentCount"@
    } else if i == 30 {
        "vulnCriticalCount"@
    } else if i == 31 {
        "vulnHighCount"@
    } else if i == 32 {
        "vulnTotalCount"@
    } else if i == 33 {
        "vulnMaxCvss"@
    } else if i == 34 {
        "riskScore"@
    } else if i == 35 {
        "complianceState"@
    } else if i == 36 {
        "isHighRisk"@
    } else if i == 37 {
        "isCriticalRisk"@
    } else if i == 38 {
        "dataSource"@
    } else {
        "lastUpdated"@
    }
}

spec fn managed_place(s: Seq<char>) -> int {
    if s.len() == 7 && s[0] == 'a' && s[5] == 'I' {
        0
    } else if s.len() == 15 && s[0] == 'a' && s[5] == 'M' {
        1
    } else if s.len() == 14 && s[0] == 'a' && s[5] == 'I' {
        2
    } else if s.len() == 15 && s[0] == 'a' && s[5] == 'E' {
        3
    } else if s.len() == 13 && s[0] == 'a' && s[5] == 'H' {
        4
    } else if s.len() == 9 && s[0] == 'o' && s[5] == 's' {
        5
    } else if s.len() == 12 && s[0] == 'p' && s[5] == 'o' {
        6
    } else if s.len() == 10 && s[0] == 'p' && s[5] == 'o' {
        7
    } else if s.len() == 18 && s[0] == 's' && s[5] == 'm' {
        8
    } else if s.len() == 17 && s[0] == 's' && s[5] == 'm' {
        9
    } else if s.len() == 12 && s[0] == 's' && s[5] == 'l' {
        10
    } else if s.len() == 13 && s[0] == 'm' && s[5] == 'n' {
        11
    } else if s.len() == 12 && s[0] == 'a' && s[5] == 'V' {
        12
    } else if s.len() == 8 && s[0] == 'l' && s[5] == 'e' {
        13
    } else if s.len() == 9 && s[0] == 'f' && s[5] == 'S' {
        14
    } else if s.len() == 12 && s[0] == 'd' && s[5] == 'e' {
        15
    } else if s.len() == 15 && s[0] == 'z' && s[5] == 'e' {
        16
    } else if s.len() == 18 && s[0] == 'p' && s[5] == 'n' {
        17
    } else if s.len() == 20 && s[0] == 'p' && s[5] == 'n' {
        18
    } else if s.len() == 14 && s[0] == 's' && s[5] == 'r' {
        19
    } else if s.len() == 16 && s[0] == 's' && s[5] == 'r' {
        20
    } else if s.len() == 12 && s[0] == 'h' && s[5] == 'r' {
        21
    } else if s.len() == 14 && s[0] == 'h' && s[5] == 'r' {
        22
    } else if s.len() == 18 && s[0] == 'a' && s[5] == 'C' {
        23
    } else if s.len() == 14 && s[0] == 'a' && s[5] == 'H' {
        24
    } else if s.len() == 15 && s[0] == 'a' && s[5] == 'T' {
        25
    } else if s.len() == 22 && s[0] == 'd' && s[5] == 't' {
        26
    } else if s.len() == 18 && s[0] == 'd' && s[5] == 't' {
        27
    } else if s.len() == 19 && s[0] == 'd' && s[5] == 't' {
        28
    } else if s.len() == 13 && s[0] == 'i' && s[5] == 'e' {
        29
    } else if s.len() == 17 && s[0] == 'v' && s[5] == 'r' {
        30
    } else if s.len() == 13 && s[0] == 'v' && s[5] == 'i' {
        31
    } else if s.len() == 14 && s[0] == 'v' && s[5] == 'o' {
        32
    } else if s.len() == 11 && s[0] == 'v' && s[5] == 'a' {
        33
    } else if s.len() == 9 && s[0] == 'r' && s[5] == 'c' {
        34
    } else if s.len() == 15 && s[0] == 'c' && s[5] == 'i' {
        35
    } else if s.len() == 10 && s[0] == 'i' && s[5] == 'h' {
        36
    } else if s.len() == 14 && s[0] == 'i' && s[5] == 't' {
        37
    } else if s.len() == 10 && s[0] == 'd' && s[5] == 'o' {
        38
    } else {
        39
    }
}

proof fn lemma_managed_place(i: int)
    requires
        0 <= i < 40,
    ensures
        managed_place(managed_name(i)) == i,
{
    if i == 0 {
        reveal_strlit("assetId");
    } else if i == 1 {
        reveal_strlit("assetMacAddress");
    } else if i == 2 {
        reveal_strlit("assetIpAddress");
    } else if i == 3 {
        reveal_strlit("assetExternalIp");
    } else if i == 4 {
        reveal_strlit("assetHostname");
    } else if i == 5 {
        reveal_strlit("osVersion");
    } else if i == 6 {
        reveal_strlit("platformName");
    } else if i == 7 {
        reveal_strlit("platformId");
    } else if i == 8 {
        reveal_strlit("systemManufacturer");
    } else if i == 9 {
        reveal_strlit("systemProductName");
    } else if i == 10 {
        reveal_strlit("serialNumber");
    } else if i == 11 {
        reveal_strlit("machineDomain");
    } else if i == 12 {
        reveal_strlit("agentVersion");
    } else if i == 13 {
        reveal_strlit("lastSeen");
    } else if i == 14 {
        reveal_strlit("firstSeen");
    } else if i == 15 {
        reveal_strlit("deviceStatus");
    } else if i == 16 {
        reveal_strlit("ztaOverallScore");
    } else if i == 17 {
        reveal_strlit("preventionPolicyId");
    } else if i == 18 {
        reveal_strlit("preventionPolicyName");
    } else if i == 19 {
        reveal_strlit("sensorPolicyId");
    } else if i == 20 {
        reveal_strlit("sensorPolicyName");
    } else if i == 21 {
        reveal_strlit("hostGroupIds");
    } else if i == 22 {
        reveal_strlit("hostGroupNames");
    } else if i == 23 {
        reveal_strlit("alertCriticalCount");
    } else if i == 24 {
        reveal_strlit("alertHighCount");
    } else if i == 25 {
        reveal_strlit("alertTotalCount");
    } else if i == 26 {
        reveal_strlit("detectionCriticalCount");
    } else if i == 27 {
        reveal_strlit("detectionHighCount");
    } else if i == 28 {
        reveal_strlit("detectionTotalCount");
    } else if i == 29 {
        reveal_strlit("incidentCount");
    } else if i == 30 {
        reveal_strlit("vulnCriticalCount");
    } else if i == 31 {
        reveal_strlit("vulnHighCount");
    } else if i == 32 {
        reveal_strlit("vulnTotalCount");
    } else if i == 33 {
        reveal_strlit("vulnMaxCvss");
    } else if i == 34 {
        reveal_strlit("riskScore");
    } else if i == 35 {
        reveal_strlit("complianceState");
    } else if i == 36 {
        reveal_strlit("isHighRisk");
    } else if i == 37 {
        reveal_strlit("isCriticalRisk");
    } else if i == 38 {
        reveal_strlit("dataSource");
    } else {
        reveal_strlit("lastUpdated");
    }
}
spec fn managed_fields(device: Json, data: DataView, points: u64) -> Fields {
    identity_fields(device) + policy_fields(device, data) + count_fields(device, data)
        + risk_fields(risk_of(exposure_of(device, data, points)), data.refreshed)
}

proof fn lemma_managed_names(device: Json, data: DataView, points: u64)
    ensures
        managed_fields(device, data, points).len() == 40,
        forall|i: int|
            0 <= i < 40 ==> (#[trigger] managed_fields(device, data, points)[i]).0 == managed_name(i),
{
    let identity = identity_fields(device);
    let policy = policy_fields(device, data);
    let count = count_fields(device, data);
    let risk = risk_fields(risk_of(exposure_of(device, data, points)), data.refreshed);
    let all = managed_fields(device, data, points);
    assert(identity.len() == 16 && policy.len() == 7 && count.len() == 11 && risk.len() == 6);
    assert forall|i: int| 0 <= i < 40 implies (#[trigger] all[i]).0 == managed_name(i) by {
        if i < 16 {
            assert(all[i] == identity[i]);
        } else if i < 23 {
            assert(all[i] == policy[i - 16]);
        } else if i < 34 {
            assert(all[i] == count[i - 23]);
        } else {
            assert(all[i] == risk[i - 34]);
        }
    }
}

proof fn lemma_managed_field(device: Json, data: DataView, points: u64, i: int)
    requires
        0 <= i < 40,
    ensures
        member_of(managed_record(device, data, points), managed_name(i)) == Some(
            managed_fields(device, data, points)[i].1,
        ),
{
    let all = managed_fields(device, data, points);
    lemma_managed_names(device, data, points);
    lemma_managed_place(i);
    assert forall|j: int| i < j < all.len() implies (#[trigger] all[j]).0 != managed_name(i) by {
        lemma_managed_place(j);
    }
    assert(all[i].0 == managed_name(i));
    law_collected(all, managed_name(i), i);
}

/// The record of a managed device says which one it is: its identifier, its MAC address in the common
/// form, and the rest as the device has it.
pub proof fn law_record_identity(device: Json, data: DataView, points: u64)
    ensures
        ({
            let record = managed_record(device, data, points);
            let id = match member_of(device, "device_id"@) {
                Some(Json::Text(text)) => text,
                _ => Seq::empty(),
            };
            &&& member_of(record, "assetId"@) == Some(Json::Text(id))
            &&& member_of(record, "assetMacAddress"@) == Some((match mac_of(
                match member_of(device, "mac_address"@) {
                    Some(Json::Text(text)) => Some(text),
                    _ => None,
                },
            ) {
                Some(mac) => Json::Text(mac),
                None => Json::Null,
            }))
            &&& member_of(record, "assetIpAddress"@) == Some(json_or_null(member_of(device, "local_ip"@)))
            &&& member_of(record, "assetExternalIp"@) == Some(json_or_null(member_of(device, "external_ip"@)))
            &&& member_of(record, "assetHostname"@) == Some(json_or_null(member_of(device, "hostname"@)))
            &&& member_of(record, "osVersion"@) == Some(json_or_null(member_of(device, "os_version"@)))
            &&& member_of(record, "platformName"@) == Some(json_or_null(member_of(device, "platform_name"@)))
            &&& member_of(record, "platformId"@) == Some(json_or_null(member_of(device, "platform_id"@)))
            &&& member_of(record, "systemManufacturer"@) == Some(json_or_null(member_of(device, "system_manufacturer"@)))
            &&& member_of(record, "systemProductName"@) == Some(json_or_null(member_of(device, "system_product_name"@)))
            &&& member_of(record, "serialNumber"@) == Some(json_or_null(member_of(device, "serial_number"@)))
            &&& member_of(record, "machineDomain"@) == Some(json_or_null(member_of(device, "machine_domain"@)))
            &&& member_of(record, "agentVersion"@) == Some(json_or_null(member_of(device, "agent_version"@)))
            &&& member_of(record, "lastSeen"@) == Some(json_or_null(member_of(device, "last_seen"@)))
            &&& member_of(record, "firstSeen"@) == Some(json_or_null(member_of(device, "first_seen"@)))
            &&& member_of(record, "deviceStatus"@) == Some(json_or_null(member_of(device, "status"@)))
        }),
{
    lemma_managed_field(device, data, points, 0);
    lemma_managed_field(device, data, points, 1);
    lemma_managed_field(device, data, points, 2);
    lemma_managed_field(device, data, points, 3);
    lemma_managed_field(device, data, points, 4);
    lemma_managed_field(device, data, points, 5);
    lemma_managed_field(device, data, points, 6);
    lemma_managed_field(device, data, points, 7);
    lemma_managed_field(device, data, points, 8);
    lemma_managed_field(device, data, points, 9);
    lemma_managed_field(device, data, points, 10);
    lemma_managed_field(device, data, points, 11);
    lemma_managed_field(device, data, points, 12);
    lemma_managed_field(device, data, points, 13);
    lemma_managed_field(device, data, points, 14);
    lemma_managed_field(device, data, points, 15);
}

/// The record of a managed device shows its zero-trust score, its policies by identifier and name, and
/// its groups by identifier and name.
pub proof fn law_record_policies(device: Json, data: DataView, points: u64)
    ensures
        ({
            let record = managed_record(device, data, points);
            let id = match member_of(device, "device_id"@) {
                Some(Json::Text(text)) => text,
                _ => Seq::empty(),
            };
            let assessment = if data.zta.dom().contains(id) {
                at_pointer(data.zta[id], "/assessment/overall"@)
            } else {
                None
            };
            let policies = member_of(device, "device_policies"@);
            let prevention = match policies {
                Some(found) => match at_pointer(found, "/prevention/policy_id"@) {
                    Some(Json::Text(text)) => text,
                    _ => Seq::empty(),
                },
                None => Seq::empty(),
            };
            let sensor = match policies {
                Some(found) => match at_pointer(found, "/sensor_update/policy_id"@) {
                    Some(Json::Text(text)) => text,
                    _ => Seq::empty(),
                },
                None => Seq::empty(),
            };
            let groups = texts_among(
                match member_of(device, "groups"@) {
                    Some(Json::Array(items)) => items,
                    _ => Seq::empty(),
                },
            );
            let group_names = names_of(data.groups, groups);
            &&& member_of(record, "ztaOverallScore"@) == Some(json_or_null(assessment))
            &&& member_of(record, "preventionPolicyId"@) == Some(Json::Text(prevention))
            &&& member_of(record, "preventionPolicyName"@) == Some((if data.prevention.dom().contains(prevention) {
                json_or_null(member_of(data.prevention[prevention], "name"@))
            } else {
                Json::Null
            }))
            &&& member_of(record, "sensorPolicyId"@) == Some(Json::Text(sensor))
            &&& member_of(record, "sensorPolicyName"@) == Some((if data.sensor.dom().contains(sensor) {
                json_or_null(member_of(data.sensor[sensor], "name"@))
            } else {
                Json::Null
            }))
            &&& member_of(record, "hostGroupIds"@) == Some((if groups.len() > 0 {
                Json::Text(separated(groups, ","@))
            } else {
                Json::Null
            }))
            &&& member_of(record, "hostGroupNames"@) == Some((if group_names.len() > 0 {
                Json::Text(separated(group_names, ","@))
            } else {
                Json::Null
            }))
        }),
{
    lemma_managed_field(device, data, points, 16);
    lemma_managed_field(device, data, points, 17);
    lemma_managed_field(device, data, points, 18);
    lemma_managed_field(device, data, points, 19);
    lemma_managed_field(device, data, points, 20);
    lemma_managed_field(device, data, points, 21);
    lemma_managed_field(device, data, points, 22);
}

/// The record of a managed device counts its own alerts, detections, incidents and vulnerabilities.
pub proof fn law_record_counts(device: Json, data: DataView, points: u64)
    ensures
        ({
            let record = managed_record(device, data, points);
            let id = match member_of(device, "device_id"@) {
                Some(Json::Text(text)) => text,
                _ => Seq::empty(),
            };
            let alerts = all_under(data.alerts, id);
            let detections = all_under(data.detections, id);
            let vulns = if data.vulns.dom().contains(id) {
                data.vulns[id]
            } else {
                no_vulnerabilities()
            };
            &&& member_of(record, "alertCriticalCount"@) == Some(Json::Number(decimal_text(severity_count(alerts, "critical"@))))
            &&& member_of(record, "alertHighCount"@) == Some(Json::Number(decimal_text(severity_count(alerts, "high"@))))
            &&& member_of(record, "alertTotalCount"@) == Some(Json::Number(decimal_text(alerts.len())))
            &&& member_of(record, "detectionCriticalCount"@) == Some(Json::Number(decimal_text(severity_count(detections, "critical"@))))
            &&& member_of(record, "detectionHighCount"@) == Some(Json::Number(decimal_text(severity_count(detections, "high"@))))
            &&& member_of(record, "detectionTotalCount"@) == Some(Json::Number(decimal_text(detections.len())))
            &&& member_of(record, "incidentCount"@) == Some(Json::Number(decimal_text(all_under(data.incidents, id).len())))
            &&& member_of(record, "vulnCriticalCount"@) == Some(Json::Number(decimal_text(vulns.critical as nat)))
            &&& member_of(record, "vulnHighCount"@) == Some(Json::Number(decimal_text(vulns.high as nat)))
            &&& member_of(record, "vulnTotalCount"@) == Some(Json::Number(decimal_text(vulns.total as nat)))
            &&& member_of(record, "vulnMaxCvss"@) == Some(Json::Number(float_text(vulns.max)))
        }),
{
    lemma_managed_field(device, data, points, 23);
    lemma_managed_field(device, data, points, 24);
    lemma_managed_field(device, data, points, 25);
    lemma_managed_field(device, data, points, 26);
    lemma_managed_field(device, data, points, 27);
    lemma_managed_field(device, data, points, 28);
    lemma_managed_field(device, data, points, 29);
    lemma_managed_field(device, data, points, 30);
    lemma_managed_field(device, data, points, 31);
    lemma_managed_field(device, data, points, 32);
    lemma_managed_field(device, data, points, 33);
}

/// The record of a managed device shows the risk that comes of its own counts, what it means, and when
/// the data is from.
pub proof fn law_record_risk(device: Json, data: DataView, points: u64)
    ensures
        ({
            let record = managed_record(device, data, points);
            let id = match member_of(device, "device_id"@) {
                Some(Json::Text(text)) => text,
                _ => Seq::empty(),
            };
            let alerts = all_under(data.alerts, id);
            let detections = all_under(data.detections, id);
            let vulns = if data.vulns.dom().contains(id) {
                data.vulns[id]
            } else {
                no_vulnerabilities()
            };
            let risk = risk_of(
                ExposureView {
                    zta_points: points as nat,
                    alerts_critical: severity_count(alerts, "critical"@),
                    alerts_high: severity_count(alerts, "high"@),
                    detections_critical: severity_count(detections, "critical"@),
                    detections_high: severity_count(detections, "high"@),
                    incidents: all_under(data.incidents, id).len(),
                    vulns_critical: vulns.critical as nat,
                    vulns_high: vulns.high as nat,
                    max_cvss: vulns.max,
                },
            );
            &&& member_of(record, "riskScore"@) == Some(Json::Number(decimal_text(risk)))
            &&& member_of(record, "complianceState"@) == Some(Json::Text(compliance_of(risk)))
            &&& member_of(record, "isHighRisk"@) == Some(Json::Bool(risk >= 50))
            &&& member_of(record, "isCriticalRisk"@) == Some(Json::Bool(risk >= 70))
            &&& member_of(record, "dataSource"@) == Some(Json::Text("CrowdStrike Falcon"@))
            &&& member_of(record, "lastUpdated"@) == Some(Json::Text(data.refreshed))
        }),
{
    lemma_managed_field(device, data, points, 34);
    lemma_managed_field(device, data, points, 35);
    lemma_managed_field(device, data, points, 36);
    lemma_managed_field(device, data, points, 37);
    lemma_managed_field(device, data, points, 38);
    lemma_managed_field(device, data, points, 39);
}

/// The zero-trust score of a device is what stands at its place in the assessment of that device.
pub proof fn law_overall(device: Json, data: DataView)
    ensures
        overall_score(device, data) == ({
            let id = match member_of(device, "device_id"@) {
                Some(Json::Text(text)) => text,
                _ => Seq::empty(),
            };
            if data.zta.dom().contains(id) {
                at_pointer(data.zta[id], "/assessment/overall"@)
            } else {
                None
            }
        }),
{
}

/// A device without vulnerabilities has none of any severity, and a highest score of zero.
pub proof fn law_no_vulnerabilities()
    ensures
        ({
            let none = no_vulnerabilities();
            &&& none.critical == 0 && none.high == 0 && none.medium == 0 && none.low == 0
            &&& none.total == 0 && none.max == 0 && none.cves.len() == 0
        }),
{
}

// ---------------------------------------------------------------------------------------------
// Records of unmanaged assets

spec fn asset_name(i: int) -> Seq<char> {
    if i == 0 {
        "assetId"@
    } else if i == 1 {
        "assetMacAddress"@
    } else if i == 2 {
        "assetIpAddress"@
    } else if i == 3 {
        "assetHostname"@
    } else if i == 4 {
        "osVersion"@
    } else if i == 5 {
        "platformName"@
    } else if i == 6 {
        "systemManufacturer"@
    } else if i == 7 {
        "discoveryMethod"@
    } else if i == 8 {
        "lastSeen"@
    } else if i == 9 {
        "firstSeen"@
    } else if i == 10 {
        "isManaged"@
    } else if i == 11 {
        "riskScore"@
    } else if i == 12 {
        "complianceState"@
    } else if i == 13 {
        "dataSource"@
    } else {
        "lastUpdated"@
    }
}

spec fn asset_place(s: Seq<char>) -> int {
    if s.len() == 7 && s[0] == 'a' {
        0
    } else if s.len() == 15 && s[0] == 'a' {
        1
    } else if s.len() == 14 && s[0] == 'a' {
        2
    } else if s.len() == 13 && s[0] == 'a' {
        3
    } else if s.len() == 9 && s[0] == 'o' {
        4
    } else if s.len() == 12 && s[0] == 'p' {
        5
    } else if s.len() == 18 && s[0] == 's' {
        6
    } else if s.len() == 15 && s[0] == 'd' {
        7
    } else if s.len() == 8 && s[0] == 'l' {
        8
    } else if s.len() == 9 && s[0] == 'f' {
        9
    } else if s.len() == 9 && s[0] == 'i' {
        10
    } else if s.len() == 9 && s[0] == 'r' {
        11
    } else if s.len() == 15 && s[0] == 'c' {
        12
    } else if s.len() == 10 && s[0] == 'd' {
        13
    } else {
        14
    }
}

proof fn lemma_asset_place(i: int)
    requires
        0 <= i < 15,
    ensures
        asset_place(asset_name(i)) == i,
{
    if i == 0 {
        reveal_strlit("assetId");
    } else if i == 1 {
        reveal_strlit("assetMacAddress");
    } else if i == 2 {
        reveal_strlit("assetIpAddress");
    } else if i == 3 {
        reveal_strlit("assetHostname");
    } else if i == 4 {
        reveal_strlit("osVersion");
    } else if i == 5 {
        reveal_strlit("platformName");
    } else if i == 6 {
        reveal_strlit("systemManufacturer");
    } else if i == 7 {
        reveal_strlit("discoveryMethod");
    } else if i == 8 {
        reveal_strlit("lastSeen");
    } else if i == 9 {
        reveal_strlit("firstSeen");
    } else if i == 10 {
        reveal_strlit("isManaged");
    } else if i == 11 {
        reveal_strlit("riskScore");
    } else if i == 12 {
        reveal_strlit("complianceState");
    } else if i == 13 {
        reveal_strlit("dataSource");
    } else {
        reveal_strlit("lastUpdated");
    }
}
proof fn lemma_asset_field(asset: Json, refreshed: Seq<char>, i: int)
    requires
        0 <= i < 15,
    ensures
        member_of(unmanaged_asset(asset, refreshed), asset_name(i)) == Some(
            asset_fields(asset, refreshed)[i].1,
        ),
{
    let all = asset_fields(asset, refreshed);
    assert(all.len() == 15);
    assert forall|j: int| 0 <= j < 15 implies (#[trigger] all[j]).0 == asset_name(j) by {}
    lemma_asset_place(i);
    assert forall|j: int| i < j < all.len() implies (#[trigger] all[j]).0 != asset_name(i) by {
        lemma_asset_place(j);
    }
    assert(all[i].0 == asset_name(i));
    law_collected(all, asset_name(i), i);
}

/// The record of an unmanaged asset says which one it is, with its first address, that it is not
/// managed, and a risk of fifty whose meaning is not known.
pub proof fn law_record_of_asset(asset: Json, refreshed: Seq<char>)
    ensures
        ({
            let record = unmanaged_asset(asset, refreshed);
            let address = match member_of(asset, "local_ip_addresses"@) {
                Some(Json::Array(addresses)) => if addresses.len() > 0 {
                    addresses[0]
                } else {
                    Json::Null
                },
                _ => Json::Null,
            };
            &&& member_of(record, "assetId"@) == Some(json_or_null(member_of(asset, "id"@)))
            &&& member_of(record, "assetMacAddress"@) == Some((match mac_of(
                match member_of(asset, "mac_address"@) {
                    Some(Json::Text(text)) => Some(text),
                    _ => None,
                },
            ) {
                Some(mac) => Json::Text(mac),
                None => Json::Null,
            }))
            &&& member_of(record, "assetIpAddress"@) == Some(address)
            &&& member_of(record, "assetHostname"@) == Some(json_or_null(member_of(asset, "hostname"@)))
            &&& member_of(record, "osVersion"@) == Some(json_or_null(member_of(asset, "os_version"@)))
            &&& member_of(record, "platformName"@) == Some(json_or_null(member_of(asset, "platform_name"@)))
            &&& member_of(record, "systemManufacturer"@) == Some(json_or_null(member_of(asset, "system_manufacturer"@)))
            &&& member_of(record, "discoveryMethod"@) == Some(json_or_null(member_of(asset, "discoverer_product_type_desc"@)))
            &&& member_of(record, "lastSeen"@) == Some(json_or_null(member_of(asset, "last_seen_timestamp"@)))
            &&& member_of(record, "firstSeen"@) == Some(json_or_null(member_of(asset, "first_seen_timestamp"@)))
            &&& member_of(record, "isManaged"@) == Some(Json::Bool(false))
            &&& member_of(record, "riskScore"@) == Some(Json::Number(decimal_text(50)))
            &&& member_of(record, "complianceState"@) == Some(Json::Text("Unknown"@))
            &&& member_of(record, "dataSource"@) == Some(Json::Text("CrowdStrike Discover"@))
            &&& member_of(record, "lastUpdated"@) == Some(Json::Text(refreshed))
        }),
{
    lemma_asset_field(asset, refreshed, 0);
    lemma_asset_field(asset, refreshed, 1);
    lemma_asset_field(asset, refreshed, 2);
    lemma_asset_field(asset, refreshed, 3);
    lemma_asset_field(asset, refreshed, 4);
    lemma_asset_field(asset, refreshed, 5);
    lemma_asset_field(asset, refreshed, 6);
    lemma_asset_field(asset, refreshed, 7);
    lemma_asset_field(asset, refreshed, 8);
    lemma_asset_field(asset, refreshed, 9);
    lemma_asset_field(asset, refreshed, 10);
    lemma_asset_field(asset, refreshed, 11);
    lemma_asset_field(asset, refreshed, 12);
    lemma_asset_field(asset, refreshed, 13);
    lemma_asset_field(asset, refreshed, 14);
}

} // verus!
