//! The records of devices: managed ones with their risk, and unmanaged ones.
use crate::falcon::data::{all_under, documents, lists, look_up, option_json, under, Data, DataView};
use crate::falcon::mac::{checked_mac, mac_of};
use crate::falcon::record::{items, items_of, string, text_at, text_member, text_under};
use crate::falcon::score::{
    cvss_points, float_key, no_vulnerabilities, whole_part, zero, SummaryView,
};
use crate::falcon::table::Table;
use crate::json::{
    at_pointer, bool_value, collected, entries_of, float_text, json, json_or_null, json_text, jsons,
    member, member_of, null_value, number_value, object_value, text_value, write_json, Json,
};
use crate::query::option_text;
use crate::text::{contains, decimal_text, lowered, occurs, separate, separated, texts, to_lower};
use vstd::prelude::*;

verus! {

/// The entries of an object before they are collected.
pub type Fields = Seq<(Seq<char>, Json)>;

/// A number as a document.
pub open spec fn number(n: nat) -> Json {
    Json::Number(decimal_text(n))
}

/// An optional text as a document.
pub open spec fn text_or_null(text: Option<Seq<char>>) -> Json {
    match text {
        Some(t) => Json::Text(t),
        None => Json::Null,
    }
}

// ---------------------------------------------------------------------------------------------
// Parts

/// The documents of a list whose text, in lower case, holds a word.
pub open spec fn severity_count(values: Seq<Json>, needle: Seq<char>) -> nat
    decreases values.len(),
{
    if values.len() == 0 {
        0
    } else {
        severity_count(values.drop_last(), needle) + (if occurs(
            lowered(json_text(values.last())),
            needle,
        ) {
            1nat
        } else {
            0
        })
    }
}

/// Counts the documents whose text, in lower case, holds a word.
pub fn severity(values: &Vec<serde_json::Value>, needle: &str) -> (r: u64)
    ensures
        r == severity_count(jsons(values@), needle@),
        r <= values@.len(),
{
    let mut count: u64 = 0;
    let mut i: usize = 0;
    let ghost all = jsons(values@);
    while i < values.len()
        invariant
            i <= values@.len(),
            all == jsons(values@),
            count <= i,
            count == severity_count(all.take(i as int), needle@),
        decreases values@.len() - i,
    {
        assert(all.take(i + 1).drop_last() == all.take(i as int));
        assert(all.take(i + 1).last() == json(values@[i as int]));
        if contains(to_lower(write_json(&values[i]).as_str()).as_str(), needle) {
            count += 1;
        }
        i += 1;
    }
    assert(all.take(values@.len() as int) == all);
    count
}

/// The texts among the items of a list, in order.
pub open spec fn texts_among(values: Seq<Json>) -> Seq<Seq<char>>
    decreases values.len(),
{
    if values.len() == 0 {
        Seq::empty()
    } else {
        match values.last() {
            Json::Text(text) => texts_among(values.drop_last()).push(text),
            _ => texts_among(values.drop_last()),
        }
    }
}

/// The texts among the items of a list.
pub fn pick_texts(values: &Vec<serde_json::Value>) -> (r: Vec<String>)
    ensures
        texts(r@) == texts_among(jsons(values@)),
{
    let mut out: Vec<String> = Vec::new();
    let mut i: usize = 0;
    let ghost all = jsons(values@);
    assert(texts(out@) =~= texts_among(all.take(0)));
    while i < values.len()
        invariant
            i <= values@.len(),
            all == jsons(values@),
            texts(out@) == texts_among(all.take(i as int)),
        decreases values@.len() - i,
    {
        assert(all.take(i + 1).drop_last() == all.take(i as int));
        assert(all.take(i + 1).last() == json(values@[i as int]));
        match values[i].as_str() {
            Some(text) => {
                let ghost before = texts(out@);
                out.push(text.to_owned());
                assert(texts(out@) =~= before.push(text@));
            },
            None => {},
        }
        i += 1;
    }
    assert(all.take(values@.len() as int) == all);
    out
}

/// The name that a document under a key has, as text.
pub open spec fn group_name(groups: Map<Seq<char>, Json>, id: Seq<char>) -> Option<Seq<char>> {
    match under(groups, id) {
        Some(group) => text_member(group, "name"@),
        None => None,
    }
}

/// The names of the groups with these identifiers, where they have one.
pub open spec fn names_of(groups: Map<Seq<char>, Json>, ids: Seq<Seq<char>>) -> Seq<Seq<char>>
    decreases ids.len(),
{
    if ids.len() == 0 {
        Seq::empty()
    } else {
        match group_name(groups, ids.last()) {
            Some(name) => names_of(groups, ids.drop_last()).push(name),
            None => names_of(groups, ids.drop_last()),
        }
    }
}

fn find_names(groups: &Table<serde_json::Value>, ids: &Vec<String>) -> (r: Vec<String>)
    requires
        groups.wf(),
    ensures
        texts(r@) == names_of(documents(groups@), texts(ids@)),
{
    let mut out: Vec<String> = Vec::new();
    let mut i: usize = 0;
    let ghost all = texts(ids@);
    assert(texts(out@) =~= Seq::<Seq<char>>::empty());
    while i < ids.len()
        invariant
            i <= ids@.len(),
            groups.wf(),
            all == texts(ids@),
            texts(out@) == names_of(documents(groups@), all.take(i as int)),
        decreases ids@.len() - i,
    {
        assert(all.take(i + 1).drop_last() == all.take(i as int));
        assert(all.take(i + 1).last() == ids@[i as int]@);
        let name = match look_up(groups, ids[i].as_str()) {
            Some(group) => string(group, "name"),
            None => None,
        };
        match name {
            Some(text) => {
                let ghost before = texts(out@);
                let ghost added = text@;
                out.push(text);
                assert(texts(out@) =~= before.push(added));
            },
            None => {},
        }
        i += 1;
    }
    assert(all.take(ids@.len() as int) == all);
    out
}

/// Texts with commas between them; nothing where there is none.
pub open spec fn comma_list(parts: Seq<Seq<char>>) -> Option<Seq<char>> {
    if parts.len() == 0 {
        None
    } else {
        Some(separated(parts, ","@))
    }
}

fn list_texts(parts: &Vec<String>) -> (r: Option<String>)
    ensures
        option_text(r) == comma_list(texts(parts@)),
{
    if parts.len() == 0 {
        None
    } else {
        Some(separate(parts, ","))
    }
}

/// An optional text as a value.
fn optional_text(text: Option<String>) -> (r: serde_json::Value)
    ensures
        json(r) == text_or_null(option_text(text)),
{
    match text {
        Some(t) => text_value(t),
        None => null_value(),
    }
}

/// An optional value, copied; null where there is none.
fn optional(value: Option<&serde_json::Value>) -> (r: serde_json::Value)
    ensures
        json(r) == json_or_null(option_json(value)),
{
    match value {
        Some(v) => v.clone(),
        None => null_value(),
    }
}

/// Adds a field.
pub fn add_field(fields: &mut Vec<(String, serde_json::Value)>, name: &str, value: serde_json::Value)
    ensures
        entries_of(final(fields)@) == entries_of(old(fields)@).push((name@, json(value))),
{
    fields.push((name.to_owned(), value));
    assert(entries_of(fields@) =~= entries_of(old(fields)@).push((name@, json(value))));
}

/// A member of a document under another name; null where it is missing.
pub open spec fn copy_field(name: Seq<char>, document: Json, key: Seq<char>) -> (Seq<char>, Json) {
    (name, json_or_null(member_of(document, key)))
}

fn add_member(
    fields: &mut Vec<(String, serde_json::Value)>,
    name: &str,
    document: &serde_json::Value,
    key: &str,
)
    ensures
        entries_of(final(fields)@) == entries_of(old(fields)@).push(
            copy_field(name@, json(*document), key@),
        ),
{
    let value = optional(member(document, key));
    add_field(fields, name, value);
}

/// The MAC address of a device or an asset, in its common form.
pub open spec fn mac_address(document: Json) -> Option<Seq<char>> {
    mac_of(text_member(document, "mac_address"@))
}

/// The MAC address of a device or an asset, in its common form.
pub fn find_mac(document: &serde_json::Value) -> (r: Option<String>)
    ensures
        option_text(r) == mac_address(json(*document)),
{
    match string(document, "mac_address") {
        Some(text) => checked_mac(Some(text.as_str())),
        None => None,
    }
}

// ---------------------------------------------------------------------------------------------
// Risk

/// What the risk of a device is made of.
pub struct Exposure {
    /// The points for the zero-trust assessment.
    pub zta_points: u64,
    pub alerts_critical: u64,
    pub alerts_high: u64,
    pub detections_critical: u64,
    pub detections_high: u64,
    pub incidents: u64,
    pub vulns_critical: u64,
    pub vulns_high: u64,
    /// The bits of the highest score of a vulnerability.
    pub max_cvss: u64,
}

/// What the risk of a device is made of, as numbers of any size.
pub struct ExposureView {
    pub zta_points: nat,
    pub alerts_critical: nat,
    pub alerts_high: nat,
    pub detections_critical: nat,
    pub detections_high: nat,
    pub incidents: nat,
    pub vulns_critical: nat,
    pub vulns_high: nat,
    pub max_cvss: u64,
}

impl View for Exposure {
    type V = ExposureView;

    open spec fn view(&self) -> ExposureView {
        ExposureView {
            zta_points: self.zta_points as nat,
            alerts_critical: self.alerts_critical as nat,
            alerts_high: self.alerts_high as nat,
            detections_critical: self.detections_critical as nat,
            detections_high: self.detections_high as nat,
            incidents: self.incidents as nat,
            vulns_critical: self.vulns_critical as nat,
            vulns_high: self.vulns_high as nat,
            max_cvss: self.max_cvss,
        }
    }
}

/// The points of a device.
pub open spec fn risk_points(e: ExposureView) -> int {
    e.zta_points + e.alerts_critical * 12 + e.alerts_high * 8 + e.detections_critical * 12
        + e.detections_high * 8 + e.incidents * 10 + e.vulns_critical * 5 + e.vulns_high * 2
        + whole_part(e.max_cvss, 10)
}

/// The risk of a device: its points, but at most a hundred.
pub open spec fn risk_of(e: ExposureView) -> nat {
    if risk_points(e) < 100 {
        risk_points(e) as nat
    } else {
        100
    }
}

/// The risk of a device.
pub fn risk(e: &Exposure) -> (r: u64)
    ensures
        r == risk_of(e@),
        r <= 100,
{
    let points: u128 = e.zta_points as u128 + e.alerts_critical as u128 * 12 + e.alerts_high as u128
        * 8 + e.detections_critical as u128 * 12 + e.detections_high as u128 * 8
        + e.incidents as u128 * 10 + e.vulns_critical as u128 * 5 + e.vulns_high as u128 * 2
        + cvss_points(e.max_cvss) as u128;
    if points < 100 {
        points as u64
    } else {
        100
    }
}

/// The state that a risk means.
pub open spec fn compliance_of(risk: nat) -> Seq<char> {
    if risk >= 70 {
        "Critical"@
    } else if risk >= 50 {
        "NonCompliant"@
    } else if risk >= 30 {
        "Warning"@
    } else {
        "Compliant"@
    }
}

/// The state that a risk means.
pub fn compliance(risk: u64) -> (r: &'static str)
    ensures
        r@ == compliance_of(risk as nat),
{
    if risk >= 70 {
        "Critical"
    } else if risk >= 50 {
        "NonCompliant"
    } else if risk >= 30 {
        "Warning"
    } else {
        "Compliant"
    }
}

/// Whether no part of one exposure is below that of another.
pub open spec fn at_least_as_exposed(a: ExposureView, b: ExposureView) -> bool {
    &&& a.zta_points >= b.zta_points
    &&& a.alerts_critical >= b.alerts_critical
    &&& a.alerts_high >= b.alerts_high
    &&& a.detections_critical >= b.detections_critical
    &&& a.detections_high >= b.detections_high
    &&& a.incidents >= b.incidents
    &&& a.vulns_critical >= b.vulns_critical
    &&& a.vulns_high >= b.vulns_high
    &&& float_key(a.max_cvss) >= float_key(b.max_cvss)
}

proof fn lemma_whole_part(a: u64, b: u64, n: int)
    requires
        float_key(a) >= float_key(b),
        0 <= n <= 10,
    ensures
        0 <= whole_part(b, n) <= whole_part(a, n) <= n,
    decreases n,
{
    if n > 0 {
        lemma_whole_part(a, b, n - 1);
    }
}

/// The risk of a device is at most a hundred, and more exposure never means less risk.
pub proof fn law_risk(a: ExposureView, b: ExposureView)
    requires
        at_least_as_exposed(a, b),
    ensures
        risk_of(b) <= risk_of(a) <= 100,
{
    lemma_whole_part(a.max_cvss, b.max_cvss, 10);
}

// ---------------------------------------------------------------------------------------------
// Managed devices

/// The identifier of a device; empty where it has none.
pub open spec fn device_id(device: Json) -> Seq<char> {
    match text_member(device, "device_id"@) {
        Some(id) => id,
        None => Seq::empty(),
    }
}

/// The overall zero-trust score of a device.
pub open spec fn overall_score(device: Json, data: DataView) -> Option<Json> {
    match under(data.zta, device_id(device)) {
        Some(assessment) => at_pointer(assessment, "/assessment/overall"@),
        None => None,
    }
}

/// The identifier of a policy of a device; empty where it has none.
pub open spec fn policy_id(device: Json, pointer: Seq<char>) -> Seq<char> {
    match member_of(device, "device_policies"@) {
        Some(policies) => text_under(policies, pointer),
        None => Seq::empty(),
    }
}

/// The name of a policy.
pub open spec fn policy_name(policies: Map<Seq<char>, Json>, id: Seq<char>) -> Json {
    match under(policies, id) {
        Some(policy) => json_or_null(member_of(policy, "name"@)),
        None => Json::Null,
    }
}

/// The vulnerabilities of a device.
pub open spec fn vulns_of(device: Json, data: DataView) -> SummaryView {
    match under(data.vulns, device_id(device)) {
        Some(summary) => summary,
        None => no_vulnerabilities(),
    }
}

/// What the risk of a device is made of.
pub open spec fn exposure_of(device: Json, data: DataView, zta_points: u64) -> ExposureView {
    let id = device_id(device);
    let alerts = all_under(data.alerts, id);
    let detections = all_under(data.detections, id);
    let vulns = vulns_of(device, data);
    ExposureView {
        zta_points: zta_points as nat,
        alerts_critical: severity_count(alerts, "critical"@),
        alerts_high: severity_count(alerts, "high"@),
        detections_critical: severity_count(detections, "critical"@),
        detections_high: severity_count(detections, "high"@),
        incidents: all_under(data.incidents, id).len(),
        vulns_critical: vulns.critical as nat,
        vulns_high: vulns.high as nat,
        max_cvss: vulns.max,
    }
}

/// The fields that say which device it is.
pub open spec fn identity_fields(device: Json) -> Fields {
    seq![
        ("assetId"@, Json::Text(device_id(device))),
        ("assetMacAddress"@, text_or_null(mac_address(device))),
        copy_field("assetIpAddress"@, device, "local_ip"@),
        copy_field("assetExternalIp"@, device, "external_ip"@),
        copy_field("assetHostname"@, device, "hostname"@),
        copy_field("osVersion"@, device, "os_version"@),
        copy_field("platformName"@, device, "platform_name"@),
        copy_field("platformId"@, device, "platform_id"@),
        copy_field("systemManufacturer"@, device, "system_manufacturer"@),
        copy_field("systemProductName"@, device, "system_product_name"@),
        copy_field("serialNumber"@, device, "serial_number"@),
        copy_field("machineDomain"@, device, "machine_domain"@),
        copy_field("agentVersion"@, device, "agent_version"@),
        copy_field("lastSeen"@, device, "last_seen"@),
        copy_field("firstSeen"@, device, "first_seen"@),
        copy_field("deviceStatus"@, device, "status"@),
    ]
}

/// The identifiers of the groups of a device.
pub open spec fn group_ids(device: Json) -> Seq<Seq<char>> {
    texts_among(items_of(member_of(device, "groups"@)))
}

/// The fields on the assessment, the policies and the groups of a device.
pub open spec fn policy_fields(device: Json, data: DataView) -> Fields {
    let prevention = policy_id(device, "/prevention/policy_id"@);
    let sensor = policy_id(device, "/sensor_update/policy_id"@);
    seq![
        ("ztaOverallScore"@, json_or_null(overall_score(device, data))),
        ("preventionPolicyId"@, Json::Text(prevention)),
        ("preventionPolicyName"@, policy_name(data.prevention, prevention)),
        ("sensorPolicyId"@, Json::Text(sensor)),
        ("sensorPolicyName"@, policy_name(data.sensor, sensor)),
        ("hostGroupIds"@, text_or_null(comma_list(group_ids(device)))),
        ("hostGroupNames"@, text_or_null(comma_list(names_of(data.groups, group_ids(device))))),
    ]
}

/// The fields that count what was found on a device.
pub open spec fn count_fields(device: Json, data: DataView) -> Fields {
    let id = device_id(device);
    let alerts = all_under(data.alerts, id);
    let detections = all_under(data.detections, id);
    let vulns = vulns_of(device, data);
    seq![
        ("alertCriticalCount"@, number(severity_count(alerts, "critical"@))),
        ("alertHighCount"@, number(severity_count(alerts, "high"@))),
        ("alertTotalCount"@, number(alerts.len())),
        ("detectionCriticalCount"@, number(severity_count(detections, "critical"@))),
        ("detectionHighCount"@, number(severity_count(detections, "high"@))),
        ("detectionTotalCount"@, number(detections.len())),
        ("incidentCount"@, number(all_under(data.incidents, id).len())),
        ("vulnCriticalCount"@, number(vulns.critical as nat)),
        ("vulnHighCount"@, number(vulns.high as nat)),
        ("vulnTotalCount"@, number(vulns.total as nat)),
        ("vulnMaxCvss"@, Json::Number(float_text(vulns.max))),
    ]
}

/// The fields on the risk of a device.
pub open spec fn risk_fields(risk: nat, refreshed: Seq<char>) -> Fields {
    seq![
        ("riskScore"@, number(risk)),
        ("complianceState"@, Json::Text(compliance_of(risk))),
        ("isHighRisk"@, Json::Bool(risk >= 50)),
        ("isCriticalRisk"@, Json::Bool(risk >= 70)),
        ("dataSource"@, Json::Text("CrowdStrike Falcon"@)),
        ("lastUpdated"@, Json::Text(refreshed)),
    ]
}

/// The record of a managed device.
pub open spec fn managed_record(device: Json, data: DataView, zta_points: u64) -> Json {
    Json::Object(
        collected(
            identity_fields(device) + policy_fields(device, data) + count_fields(device, data)
                + risk_fields(risk_of(exposure_of(device, data, zta_points)), data.refreshed),
        ),
    )
}

/// The identifier of a device; empty where it has none.
pub fn id_of(device: &serde_json::Value) -> (r: String)
    ensures
        r@ == device_id(json(*device)),
{
    match string(device, "device_id") {
        Some(id) => id,
        None => String::new(),
    }
}

/// No fields.
pub fn no_fields() -> (r: Vec<(String, serde_json::Value)>)
    ensures
        entries_of(r@) == Fields::empty(),
{
    let r: Vec<(String, serde_json::Value)> = Vec::new();
    assert(entries_of(r@) =~= Fields::empty());
    r
}

fn list_identity(device: &serde_json::Value) -> (r: Vec<(String, serde_json::Value)>)
    ensures
        entries_of(r@) == identity_fields(json(*device)),
{
    let id = id_of(device);
    let mut list = no_fields();
    let fields = &mut list;
    add_field(fields, "assetId", text_value(id));
    add_field(fields, "assetMacAddress", optional_text(find_mac(device)));
    add_member(fields, "assetIpAddress", device, "local_ip");
    add_member(fields, "assetExternalIp", device, "external_ip");
    add_member(fields, "assetHostname", device, "hostname");
    add_member(fields, "osVersion", device, "os_version");
    add_member(fields, "platformName", device, "platform_name");
    add_member(fields, "platformId", device, "platform_id");
    add_member(fields, "systemManufacturer", device, "system_manufacturer");
    add_member(fields, "systemProductName", device, "system_product_name");
    add_member(fields, "serialNumber", device, "serial_number");
    add_member(fields, "machineDomain", device, "machine_domain");
    add_member(fields, "agentVersion", device, "agent_version");
    add_member(fields, "lastSeen", device, "last_seen");
    add_member(fields, "firstSeen", device, "first_seen");
    add_member(fields, "deviceStatus", device, "status");
    list
}

/// The overall zero-trust score of a device.
pub fn zta_overall<'a>(device: &serde_json::Value, data: &'a Data) -> (r: Option<
    &'a serde_json::Value,
>)
    requires
        data.wf(),
    ensures
        option_json(r) == overall_score(json(*device), data@),
{
    match look_up(&data.zta, id_of(device).as_str()) {
        Some(assessment) => assessment.pointer("/assessment/overall"),
        None => None,
    }
}

fn find_policy(device: &serde_json::Value, pointer: &str) -> (r: String)
    ensures
        r@ == policy_id(json(*device), pointer@),
{
    match member(device, "device_policies") {
        Some(policies) => text_at(policies, pointer),
        None => String::new(),
    }
}

fn name_policy(policies: &Table<serde_json::Value>, id: &str) -> (r: serde_json::Value)
    requires
        policies.wf(),
    ensures
        json(r) == policy_name(documents(policies@), id@),
{
    match look_up(policies, id) {
        Some(policy) => optional(member(policy, "name")),
        None => null_value(),
    }
}

fn list_policies(device: &serde_json::Value, data: &Data) -> (r: Vec<(String, serde_json::Value)>)
    requires
        data.wf(),
    ensures
        entries_of(r@) == policy_fields(json(*device), data@),
{
    let prevention = find_policy(device, "/prevention/policy_id");
    let sensor = find_policy(device, "/sensor_update/policy_id");
    let prevention_name = name_policy(&data.prevention, prevention.as_str());
    let sensor_name = name_policy(&data.sensor, sensor.as_str());
    let ids = pick_texts(&items(member(device, "groups")));
    let names = find_names(&data.groups, &ids);
    let mut list = no_fields();
    let fields = &mut list;
    add_field(fields, "ztaOverallScore", optional(zta_overall(device, data)));
    add_field(fields, "preventionPolicyId", text_value(prevention));
    add_field(fields, "preventionPolicyName", prevention_name);
    add_field(fields, "sensorPolicyId", text_value(sensor));
    add_field(fields, "sensorPolicyName", sensor_name);
    add_field(fields, "hostGroupIds", optional_text(list_texts(&ids)));
    add_field(fields, "hostGroupNames", optional_text(list_texts(&names)));
    list
}

/// The list under a key, counted by severity and in all.
fn tally(table: &Table<Vec<serde_json::Value>>, key: &str) -> (r: (u64, u64, u64))
    requires
        table.wf(),
    ensures
        r.0 == severity_count(all_under(lists(table@), key@), "critical"@),
        r.1 == severity_count(all_under(lists(table@), key@), "high"@),
        r.2 == all_under(lists(table@), key@).len(),
{
    match table.get(key) {
        Some(values) => (
            severity(values, "critical"),
            severity(values, "high"),
            values.len() as u64,
        ),
        None => (0, 0, 0),
    }
}

fn list_counts(
    alerts: (u64, u64, u64),
    detections: (u64, u64, u64),
    incidents: u64,
    vulns: (u64, u64, u64),
    max_score: serde_json::Value,
) -> (r: Vec<(String, serde_json::Value)>)
    ensures
        entries_of(r@) == seq![
            ("alertCriticalCount"@, number(alerts.0 as nat)),
            ("alertHighCount"@, number(alerts.1 as nat)),
            ("alertTotalCount"@, number(alerts.2 as nat)),
            ("detectionCriticalCount"@, number(detections.0 as nat)),
            ("detectionHighCount"@, number(detections.1 as nat)),
            ("detectionTotalCount"@, number(detections.2 as nat)),
            ("incidentCount"@, number(incidents as nat)),
            ("vulnCriticalCount"@, number(vulns.0 as nat)),
            ("vulnHighCount"@, number(vulns.1 as nat)),
            ("vulnTotalCount"@, number(vulns.2 as nat)),
            ("vulnMaxCvss"@, json(max_score)),
        ],
{
    let mut list = no_fields();
    let fields = &mut list;
    add_field(fields, "alertCriticalCount", number_value(alerts.0));
    add_field(fields, "alertHighCount", number_value(alerts.1));
    add_field(fields, "alertTotalCount", number_value(alerts.2));
    add_field(fields, "detectionCriticalCount", number_value(detections.0));
    add_field(fields, "detectionHighCount", number_value(detections.1));
    add_field(fields, "detectionTotalCount", number_value(detections.2));
    add_field(fields, "incidentCount", number_value(incidents));
    add_field(fields, "vulnCriticalCount", number_value(vulns.0));
    add_field(fields, "vulnHighCount", number_value(vulns.1));
    add_field(fields, "vulnTotalCount", number_value(vulns.2));
    add_field(fields, "vulnMaxCvss", max_score);
    list
}

fn list_risk(risk: u64, refreshed: &str) -> (r: Vec<(String, serde_json::Value)>)
    ensures
        entries_of(r@) == risk_fields(risk as nat, refreshed@),
{
    let mut list = no_fields();
    let fields = &mut list;
    add_field(fields, "riskScore", number_value(risk));
    add_field(fields, "complianceState", text_value(compliance(risk).to_owned()));
    add_field(fields, "isHighRisk", bool_value(risk >= 50));
    add_field(fields, "isCriticalRisk", bool_value(risk >= 70));
    add_field(fields, "dataSource", text_value("CrowdStrike Falcon".to_owned()));
    add_field(fields, "lastUpdated", text_value(refreshed.to_owned()));
    list
}

fn add_all(
    fields: &mut Vec<(String, serde_json::Value)>,
    mut more: Vec<(String, serde_json::Value)>,
)
    ensures
        entries_of(final(fields)@) == entries_of(old(fields)@) + entries_of(more@),
{
    let ghost added = entries_of(more@);
    fields.append(&mut more);
    assert(entries_of(fields@) =~= entries_of(old(fields)@) + added);
}

/// The record of a managed device. The points for its zero-trust assessment are given.
pub fn managed(device: &serde_json::Value, data: &Data, zta_points: u64) -> (r: serde_json::Value)
    requires
        data.wf(),
    ensures
        json(r) == managed_record(json(*device), data@, zta_points),
{
    let id = id_of(device);
    let alerts = tally(&data.alerts, id.as_str());
    let detections = tally(&data.detections, id.as_str());
    let incidents = tally(&data.incidents, id.as_str()).2;
    let (vulns, max_bits, max_score) = match data.vulns.get(id.as_str()) {
        Some(s) => ((s.critical, s.high, s.total), s.max_bits, s.max_score.clone()),
        None => {
            let (bits, score) = zero();
            ((0, 0, 0), bits, score)
        },
    };
    let exposure = Exposure {
        zta_points,
        alerts_critical: alerts.0,
        alerts_high: alerts.1,
        detections_critical: detections.0,
        detections_high: detections.1,
        incidents,
        vulns_critical: vulns.0,
        vulns_high: vulns.1,
        max_cvss: max_bits,
    };
    let mut fields = list_identity(device);
    add_all(&mut fields, list_policies(device, data));
    add_all(&mut fields, list_counts(alerts, detections, incidents, vulns, max_score));
    add_all(&mut fields, list_risk(risk(&exposure), data.refreshed.as_str()));
    object_value(fields)
}

// ---------------------------------------------------------------------------------------------
// Unmanaged assets

/// The first address of an asset.
pub open spec fn first_address(asset: Json) -> Json {
    let addresses = items_of(member_of(asset, "local_ip_addresses"@));
    if addresses.len() > 0 {
        addresses[0]
    } else {
        Json::Null
    }
}

/// The fields of an unmanaged asset.
pub open spec fn asset_fields(asset: Json, refreshed: Seq<char>) -> Fields {
    seq![
        copy_field("assetId"@, asset, "id"@),
        ("assetMacAddress"@, text_or_null(mac_address(asset))),
        ("assetIpAddress"@, first_address(asset)),
        copy_field("assetHostname"@, asset, "hostname"@),
        copy_field("osVersion"@, asset, "os_version"@),
        copy_field("platformName"@, asset, "platform_name"@),
        copy_field("systemManufacturer"@, asset, "system_manufacturer"@),
        copy_field("discoveryMethod"@, asset, "discoverer_product_type_desc"@),
        copy_field("lastSeen"@, asset, "last_seen_timestamp"@),
        copy_field("firstSeen"@, asset, "first_seen_timestamp"@),
        ("isManaged"@, Json::Bool(false)),
        ("riskScore"@, number(50)),
        ("complianceState"@, Json::Text("Unknown"@)),
        ("dataSource"@, Json::Text("CrowdStrike Discover"@)),
        ("lastUpdated"@, Json::Text(refreshed)),
    ]
}

/// The record of an unmanaged asset.
pub open spec fn unmanaged_asset(asset: Json, refreshed: Seq<char>) -> Json {
    Json::Object(collected(asset_fields(asset, refreshed)))
}

fn find_address(asset: &serde_json::Value) -> (r: serde_json::Value)
    ensures
        json(r) == first_address(json(*asset)),
{
    match member(asset, "local_ip_addresses") {
        Some(value) => match value.as_array() {
            Some(addresses) => if addresses.len() > 0 {
                return addresses[0].clone();
            },
            None => {},
        },
        None => {},
    }
    null_value()
}

/// The record of an unmanaged asset.
pub fn unmanaged_record(asset: &serde_json::Value, refreshed: &str) -> (r: serde_json::Value)
    ensures
        json(r) == unmanaged_asset(json(*asset), refreshed@),
{
    let mut list = no_fields();
    let fields = &mut list;
    add_member(fields, "assetId", asset, "id");
    add_field(fields, "assetMacAddress", optional_text(find_mac(asset)));
    add_field(fields, "assetIpAddress", find_address(asset));
    add_member(fields, "assetHostname", asset, "hostname");
    add_member(fields, "osVersion", asset, "os_version");
    add_member(fields, "platformName", asset, "platform_name");
    add_member(fields, "systemManufacturer", asset, "system_manufacturer");
    add_member(fields, "discoveryMethod", asset, "discoverer_product_type_desc");
    add_member(fields, "lastSeen", asset, "last_seen_timestamp");
    add_member(fields, "firstSeen", asset, "first_seen_timestamp");
    add_field(fields, "isManaged", bool_value(false));
    add_field(fields, "riskScore", number_value(50));
    add_field(fields, "complianceState", text_value("Unknown".to_owned()));
    add_field(fields, "dataSource", text_value("CrowdStrike Discover".to_owned()));
    add_field(fields, "lastUpdated", text_value(refreshed.to_owned()));
    assert(entries_of(list@) =~= asset_fields(json(*asset), refreshed@));
    object_value(list)
}

} // verus!
