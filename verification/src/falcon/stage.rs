//! The parts of a collection: which API each one asks, and how.
use crate::config::CrowdStrikeFeatures;
use crate::text::{separate, separated, texts};
use vstd::prelude::*;

verus! {

/// A part of a collection, in the order in which they are done.
#[derive(Debug, Clone, Copy, PartialEq, Eq, Structural)]
pub enum Stage {
    Devices,
    Prevention,
    Sensor,
    Zta,
    Alerts,
    Detections,
    Incidents,
    Vulnerabilities,
    Groups,
    Unmanaged,
    Done,
}

/// The position of a part in the order.
pub open spec fn rank(stage: Stage) -> nat {
    match stage {
        Stage::Devices => 0,
        Stage::Prevention => 1,
        Stage::Sensor => 2,
        Stage::Zta => 3,
        Stage::Alerts => 4,
        Stage::Detections => 5,
        Stage::Incidents => 6,
        Stage::Vulnerabilities => 7,
        Stage::Groups => 8,
        Stage::Unmanaged => 9,
        Stage::Done => 10,
    }
}

/// The part behind another.
pub open spec fn following(stage: Stage) -> Stage {
    match stage {
        Stage::Devices => Stage::Prevention,
        Stage::Prevention => Stage::Sensor,
        Stage::Sensor => Stage::Zta,
        Stage::Zta => Stage::Alerts,
        Stage::Alerts => Stage::Detections,
        Stage::Detections => Stage::Incidents,
        Stage::Incidents => Stage::Vulnerabilities,
        Stage::Vulnerabilities => Stage::Groups,
        Stage::Groups => Stage::Unmanaged,
        Stage::Unmanaged => Stage::Done,
        Stage::Done => Stage::Done,
    }
}

/// The part before another.
pub open spec fn preceding(stage: Stage) -> Stage {
    match stage {
        Stage::Devices => Stage::Devices,
        Stage::Prevention => Stage::Devices,
        Stage::Sensor => Stage::Prevention,
        Stage::Zta => Stage::Sensor,
        Stage::Alerts => Stage::Zta,
        Stage::Detections => Stage::Alerts,
        Stage::Incidents => Stage::Detections,
        Stage::Vulnerabilities => Stage::Incidents,
        Stage::Groups => Stage::Vulnerabilities,
        Stage::Unmanaged => Stage::Groups,
        Stage::Done => Stage::Unmanaged,
    }
}

/// The part behind another.
pub fn next_stage(stage: Stage) -> (r: Stage)
    ensures
        r == following(stage),
{
    match stage {
        Stage::Devices => Stage::Prevention,
        Stage::Prevention => Stage::Sensor,
        Stage::Sensor => Stage::Zta,
        Stage::Zta => Stage::Alerts,
        Stage::Alerts => Stage::Detections,
        Stage::Detections => Stage::Incidents,
        Stage::Incidents => Stage::Vulnerabilities,
        Stage::Vulnerabilities => Stage::Groups,
        Stage::Groups => Stage::Unmanaged,
        Stage::Unmanaged => Stage::Done,
        Stage::Done => Stage::Done,
    }
}

/// Whether a part is wanted. Devices always are.
pub open spec fn is_enabled(features: CrowdStrikeFeatures, stage: Stage) -> bool {
    match stage {
        Stage::Devices => true,
        Stage::Prevention => features.policies,
        Stage::Sensor => features.policies,
        Stage::Zta => features.zta,
        Stage::Alerts => features.alerts,
        Stage::Detections => features.detections,
        Stage::Incidents => features.incidents,
        Stage::Vulnerabilities => features.vulnerability_summary,
        Stage::Groups => features.host_groups,
        Stage::Unmanaged => features.unmanaged_assets,
        Stage::Done => true,
    }
}

/// Whether a part is wanted.
pub fn enabled(features: &CrowdStrikeFeatures, stage: Stage) -> (r: bool)
    ensures
        r == is_enabled(*features, stage),
{
    match stage {
        Stage::Devices => true,
        Stage::Prevention => features.policies,
        Stage::Sensor => features.policies,
        Stage::Zta => features.zta,
        Stage::Alerts => features.alerts,
        Stage::Detections => features.detections,
        Stage::Incidents => features.incidents,
        Stage::Vulnerabilities => features.vulnerability_summary,
        Stage::Groups => features.host_groups,
        Stage::Unmanaged => features.unmanaged_assets,
        Stage::Done => true,
    }
}

/// The name under which the availability of an API is reported.
pub open spec fn api_name(stage: Stage) -> Seq<char> {
    match stage {
        Stage::Prevention => "prevention_policy"@,
        Stage::Sensor => "sensor_policy"@,
        Stage::Zta => "zta"@,
        Stage::Alerts => "alerts"@,
        Stage::Detections => "detections"@,
        Stage::Incidents => "incidents"@,
        Stage::Vulnerabilities => "spotlight"@,
        Stage::Groups => "host_groups"@,
        Stage::Unmanaged => "discover"@,
        _ => "hosts"@,
    }
}

/// The name under which the availability of an API is reported.
pub fn name_of(stage: Stage) -> (r: &'static str)
    ensures
        r@ == api_name(stage),
{
    match stage {
        Stage::Prevention => "prevention_policy",
        Stage::Sensor => "sensor_policy",
        Stage::Zta => "zta",
        Stage::Alerts => "alerts",
        Stage::Detections => "detections",
        Stage::Incidents => "incidents",
        Stage::Vulnerabilities => "spotlight",
        Stage::Groups => "host_groups",
        Stage::Unmanaged => "discover",
        _ => "hosts",
    }
}

/// The path that identifiers are asked for at. It serves as the probe too.
pub open spec fn query_path(stage: Stage) -> Seq<char> {
    match stage {
        Stage::Prevention => "/policy/queries/prevention/v1"@,
        Stage::Sensor => "/policy/queries/sensor-update/v1"@,
        Stage::Zta => "/zero-trust-assessment/entities/assessments/v1"@,
        Stage::Alerts => "/alerts/queries/alerts/v2"@,
        Stage::Detections => "/detects/queries/detects/v1"@,
        Stage::Incidents => "/incidents/queries/incidents/v1"@,
        Stage::Vulnerabilities => "/spotlight/queries/vulnerabilities/v1"@,
        Stage::Groups => "/devices/queries/host-groups/v1"@,
        Stage::Unmanaged => "/discover/queries/hosts/v1"@,
        _ => "/devices/queries/devices/v1"@,
    }
}

/// The path that identifiers are asked for at.
pub fn path_of_query(stage: Stage) -> (r: &'static str)
    ensures
        r@ == query_path(stage),
{
    match stage {
        Stage::Prevention => "/policy/queries/prevention/v1",
        Stage::Sensor => "/policy/queries/sensor-update/v1",
        Stage::Zta => "/zero-trust-assessment/entities/assessments/v1",
        Stage::Alerts => "/alerts/queries/alerts/v2",
        Stage::Detections => "/detects/queries/detects/v1",
        Stage::Incidents => "/incidents/queries/incidents/v1",
        Stage::Vulnerabilities => "/spotlight/queries/vulnerabilities/v1",
        Stage::Groups => "/devices/queries/host-groups/v1",
        Stage::Unmanaged => "/discover/queries/hosts/v1",
        _ => "/devices/queries/devices/v1",
    }
}

/// The path that documents are asked for at.
pub open spec fn entity_path(stage: Stage) -> Seq<char> {
    match stage {
        Stage::Prevention => "/policy/combined/prevention/v1"@,
        Stage::Sensor => "/policy/combined/sensor-update/v2"@,
        Stage::Zta => "/zero-trust-assessment/entities/assessments/v1"@,
        Stage::Alerts => "/alerts/entities/alerts/v2"@,
        Stage::Detections => "/detects/entities/summaries/GET/v1"@,
        Stage::Incidents => "/incidents/entities/incidents/GET/v1"@,
        Stage::Vulnerabilities => "/spotlight/entities/vulnerabilities/v2"@,
        Stage::Groups => "/devices/combined/host-groups/v1"@,
        Stage::Unmanaged => "/discover/entities/hosts/v1"@,
        _ => "/devices/entities/devices/v2"@,
    }
}

/// The path that documents are asked for at.
pub fn path_of_entities(stage: Stage) -> (r: &'static str)
    ensures
        r@ == entity_path(stage),
{
    match stage {
        Stage::Prevention => "/policy/combined/prevention/v1",
        Stage::Sensor => "/policy/combined/sensor-update/v2",
        Stage::Zta => "/zero-trust-assessment/entities/assessments/v1",
        Stage::Alerts => "/alerts/entities/alerts/v2",
        Stage::Detections => "/detects/entities/summaries/GET/v1",
        Stage::Incidents => "/incidents/entities/incidents/GET/v1",
        Stage::Vulnerabilities => "/spotlight/entities/vulnerabilities/v2",
        Stage::Groups => "/devices/combined/host-groups/v1",
        Stage::Unmanaged => "/discover/entities/hosts/v1",
        _ => "/devices/entities/devices/v2",
    }
}

/// The member of the body that identifiers are posted in; nothing where they stand in the query.
pub open spec fn body_key(stage: Stage) -> Option<Seq<char>> {
    match stage {
        Stage::Devices => Some("ids"@),
        Stage::Alerts => Some("composite_ids"@),
        Stage::Detections => Some("ids"@),
        Stage::Incidents => Some("ids"@),
        _ => None,
    }
}

/// The member of the body that identifiers are posted in.
pub fn key_of_body(stage: Stage) -> (r: Option<&'static str>)
    ensures
        match r {
            Some(key) => body_key(stage) == Some(key@),
            None => body_key(stage) is None,
        },
{
    match stage {
        Stage::Devices => Some("ids"),
        Stage::Alerts => Some("composite_ids"),
        Stage::Detections => Some("ids"),
        Stage::Incidents => Some("ids"),
        _ => None,
    }
}

/// The number of documents that are asked for at once.
pub open spec fn batch_size(stage: Stage) -> nat {
    if stage == Stage::Vulnerabilities {
        400
    } else {
        100
    }
}

/// The number of documents that are asked for at once.
pub fn size_of_batch(stage: Stage) -> (r: usize)
    ensures
        r == batch_size(stage),
        r > 0,
{
    if stage == Stage::Vulnerabilities {
        400
    } else {
        100
    }
}

/// The number of devices whose vulnerabilities are asked for at once.
pub const DEVICES_AT_ONCE: usize = 50;

/// Texts, each in quotation marks.
pub open spec fn in_quotes(ids: Seq<Seq<char>>) -> Seq<Seq<char>> {
    ids.map_values(|id: Seq<char>| "\""@ + id + "\""@)
}

/// A filter for the open vulnerabilities of devices.
pub open spec fn devices_filter(ids: Seq<Seq<char>>) -> Seq<char> {
    "aid:["@ + separated(in_quotes(ids), ","@) + "]+status: \"open\""@
}

/// Builds a filter for the open vulnerabilities of devices.
pub fn filter_devices(ids: &Vec<String>) -> (r: String)
    ensures
        r@ == devices_filter(texts(ids@)),
{
    let mut quoted: Vec<String> = Vec::new();
    let mut i: usize = 0;
    while i < ids.len()
        invariant
            i <= ids@.len(),
            texts(quoted@) == in_quotes(texts(ids@)).take(i as int),
        decreases ids@.len() - i,
    {
        let mut one: String = "\"".to_owned();
        one.append(ids[i].as_str());
        one.append("\"");
        let ghost before = texts(quoted@);
        let ghost added = one@;
        quoted.push(one);
        assert(texts(quoted@) =~= before.push(added));
        i += 1;
    }
    assert(texts(quoted@) =~= in_quotes(texts(ids@)));
    let list = separate(&quoted, ",");
    let mut out: String = "aid:[".to_owned();
    out.append(list.as_str());
    out.append("]+status: \"open\"");
    out
}

} // verus!
