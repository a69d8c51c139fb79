use api_pagination_proxy::config::{CrowdStrikeConfig, CrowdStrikeFeatures};
use api_pagination_proxy::falcon::api::FalconError;
use api_pagination_proxy::falcon::collect::{Call, Collector};
use api_pagination_proxy::falcon::data::Data;
use api_pagination_proxy::falcon::device::{
    compliance, find_mac, managed, pick_texts, risk, severity, unmanaged_record, zta_overall,
    Exposure,
};
use api_pagination_proxy::falcon::gather::{by_device, by_host, count_all, index};
use api_pagination_proxy::falcon::report::Report;
use serde_json::Value;

const NOON: i128 = 1_546_344_000_000_000_000;

fn parsed(text: &str) -> Value {
    serde_json::from_str(text).unwrap()
}

fn list(text: &str) -> Vec<Value> {
    serde_json::from_str(text).unwrap()
}

fn features(on: bool) -> CrowdStrikeFeatures {
    CrowdStrikeFeatures {
        policies: on,
        zta: on,
        alerts: on,
        detections: on,
        incidents: on,
        vulnerability_summary: on,
        host_groups: on,
        unmanaged_assets: on,
    }
}

fn settings(features: CrowdStrikeFeatures) -> CrowdStrikeConfig {
    CrowdStrikeConfig {
        enabled: true,
        base_url: "https://api.crowdstrike.com".into(),
        timeout_seconds: 30,
        page_size: 2,
        lookback_days: 1,
        rate_limit_retries: 2,
        features,
    }
}

fn line(call: &Call) -> String {
    let query: Vec<String> = call
        .query
        .iter()
        .map(|(key, value)| format!("{}={}", key, value))
        .collect();
    let body = match &call.body {
        Some(value) => format!(" {}", value),
        None => String::new(),
    };
    format!(
        "{} {}?{}{}",
        if call.post { "POST" } else { "GET" },
        call.path,
        query.join("&"),
        body
    )
}

fn run(
    collector: &mut Collector,
    answer: impl Fn(&str) -> Result<Value, FalconError>,
) -> Result<Vec<String>, FalconError> {
    let mut lines = Vec::new();
    while let Some(call) = collector.next_call() {
        let text = line(&call);
        let reply = answer(&text);
        lines.push(text);
        collector.on_reply(reply, NOON)?;
    }
    Ok(lines)
}

fn ids(list: &[&str]) -> Value {
    parsed(&format!(
        r#"{{"resources": {}, "meta": {{"pagination": {{"total": {}}}}}}}"#,
        serde_json::to_string(list).unwrap(),
        list.len()
    ))
}

fn found(text: &str) -> Value {
    parsed(&format!(r#"{{"resources": {}}}"#, text))
}

fn answer_all(call: &str) -> Result<Value, FalconError> {
    let reply = match call {
        "GET /devices/queries/devices/v1?limit=2&offset=0" => parsed(
            r#"{"resources": ["d1", "d2"], "meta": {"pagination": {"total": 3}}}"#,
        ),
        "GET /devices/queries/devices/v1?limit=2&offset=2" => parsed(
            r#"{"resources": ["d3"], "meta": {"pagination": {"total": 3}}}"#,
        ),
        r#"POST /devices/entities/devices/v2? {"ids":["d1","d2","d3"]}"# => found(
            r#"[
                {"device_id": "d1", "mac_address": "00-1a-2b-3c-4d-5e", "hostname": "one",
                 "groups": ["g1", "g2", 3],
                 "device_policies": {"prevention": {"policy_id": "p1"}, "sensor_update": {"policy_id": "s1"}}},
                {"device_id": "d2", "mac_address": "none"},
                {"device_id": "d3", "mac_address": "0a1b2c3d4e5f"}
            ]"#,
        ),
        "GET /policy/combined/prevention/v1?limit=500" => {
            found(r#"[{"id": "p1", "name": "Prevent"}]"#)
        }
        "GET /policy/combined/sensor-update/v2?limit=500" => {
            found(r#"[{"id": "s1", "name": "Sense"}]"#)
        }
        "GET /zero-trust-assessment/entities/assessments/v1?ids=d1&ids=d2&ids=d3" => {
            found(r#"[{"aid": "d1", "assessment": {"overall": 40}}]"#)
        }
        r#"GET /alerts/queries/alerts/v2?filter=created_timestamp:>"2018-12-31T12:00:00Z"&limit=2&offset=0"# => {
            ids(&["a1"])
        }
        r#"POST /alerts/entities/alerts/v2? {"composite_ids":["a1"]}"# => {
            found(r#"[{"device": {"device_id": "d1"}, "severity_name": "Critical"}]"#)
        }
        r#"GET /detects/queries/detects/v1?filter=created_timestamp:>"2018-12-31T12:00:00Z"&limit=2&offset=0"# => {
            ids(&["t1"])
        }
        r#"POST /detects/entities/summaries/GET/v1? {"ids":["t1"]}"# => {
            found(r#"[{"device": {"device_id": "d1"}, "max_severity_displayname": "High"}]"#)
        }
        r#"GET /incidents/queries/incidents/v1?filter=start:>"2018-12-31T12:00:00Z"&limit=2&offset=0"# => {
            ids(&["i1"])
        }
        r#"POST /incidents/entities/incidents/GET/v1? {"ids":["i1"]}"# => {
            found(r#"[{"hosts": [{"device_id": "d1"}, {"device_id": "d3"}]}]"#)
        }
        r#"GET /spotlight/queries/vulnerabilities/v1?filter=aid:["d1","d2","d3"]+status: "open"&limit=2&offset=0"# => {
            ids(&["v1"])
        }
        "GET /spotlight/entities/vulnerabilities/v2?ids=v1" => {
            found(r#"[{"aid": "d1", "cve": {"base_score": 9.8, "id": "CVE-9"}}]"#)
        }
        "GET /devices/combined/host-groups/v1?limit=500" => {
            found(r#"[{"id": "g1", "name": "Group"}]"#)
        }
        r#"GET /discover/queries/hosts/v1?filter=entity_type: "unmanaged"&limit=2&offset=0"# => {
            ids(&["u1"])
        }
        "GET /discover/entities/hosts/v1?ids=u1" => found(
            r#"[{"id": "u1", "mac_address": "11:22:33:44:55:66", "local_ip_addresses": ["10.0.0.9"]}]"#,
        ),
        probe if probe.ends_with("?limit=1") => parsed("{}"),
        other => panic!("{}", other),
    };
    Ok(reply)
}

#[test]
fn collects_everything_in_order() {
    let mut collector = Collector::new(&settings(features(true)));
    let calls = run(&mut collector, answer_all).unwrap();
    assert_eq!(calls.len(), 26);
    assert_eq!(calls[3], "GET /policy/queries/prevention/v1?limit=1");
    assert_eq!(calls[25], "GET /discover/entities/hosts/v1?ids=u1");
    let data = collector.into_data();
    assert_eq!(data.devices.len(), 3);
    assert_eq!(data.refreshed, "2019-01-01T12:00:00Z");
    assert_eq!(data.incidents.len(), 2);
    assert_eq!(data.vulns.get("d1").unwrap().critical, 1);
    let names: Vec<&str> = data.available.iter().map(|(name, _)| name.as_str()).collect();
    assert_eq!(
        names,
        vec![
            "hosts",
            "prevention_policy",
            "sensor_policy",
            "zta",
            "alerts",
            "detections",
            "incidents",
            "spotlight",
            "host_groups",
            "discover"
        ]
    );
    assert!(data.available.iter().all(|(_, available)| *available));
}

#[test]
fn exactly_the_wanted_parts_are_reported() {
    let mut wanted = features(false);
    wanted.alerts = true;
    wanted.policies = true;
    wanted.host_groups = true;
    let mut collector = Collector::new(&settings(wanted));
    run(&mut collector, answer_all).unwrap();
    let data = collector.into_data();
    let names: Vec<&str> = data.available.iter().map(|(name, _)| name.as_str()).collect();
    assert_eq!(
        names,
        vec!["hosts", "prevention_policy", "sensor_policy", "alerts", "host_groups"]
    );
}

#[test]
fn disabled_parts_are_never_asked_for() {
    let mut collector = Collector::new(&settings(features(false)));
    let calls = run(&mut collector, answer_all).unwrap();
    assert_eq!(
        calls,
        vec![
            "GET /devices/queries/devices/v1?limit=2&offset=0",
            "GET /devices/queries/devices/v1?limit=2&offset=2",
            r#"POST /devices/entities/devices/v2? {"ids":["d1","d2","d3"]}"#,
        ]
    );
    let data = collector.into_data();
    assert_eq!(data.available, vec![("hosts".to_string(), true)]);
    assert_eq!(data.zta.len(), 0);
    assert_eq!(data.refreshed, "2019-01-01T12:00:00Z");
}

#[test]
fn unavailable_parts_are_skipped() {
    for status in [400, 403, 404] {
        let mut collector = Collector::new(&settings(features(true)));
        let calls = run(&mut collector, |call| {
            if call.ends_with("?limit=1") {
                Err(FalconError::Status(status))
            } else {
                answer_all(call)
            }
        })
        .unwrap();
        assert_eq!(calls.len(), 12);
        let data = collector.into_data();
        assert_eq!(data.available.len(), 10);
        assert!(data.available.iter().skip(1).all(|(_, available)| !available));
        assert_eq!(data.devices.len(), 3);
        assert_eq!(data.alerts.len(), 0);
    }
}

#[test]
fn other_failures_end_the_collection() {
    for error in [
        FalconError::Status(500),
        FalconError::Status(429),
        FalconError::Transport,
        FalconError::Decode,
        FalconError::Auth(401),
    ] {
        let mut collector = Collector::new(&settings(features(true)));
        let ended = run(&mut collector, |call| {
            if call == "GET /alerts/queries/alerts/v2?limit=1" {
                Err(error)
            } else {
                answer_all(call)
            }
        });
        assert_eq!(ended, Err(error));
    }
    let mut collector = Collector::new(&settings(features(true)));
    let ended = run(&mut collector, |call| {
        if call.starts_with("POST /devices") {
            Err(FalconError::Status(404))
        } else {
            answer_all(call)
        }
    });
    assert_eq!(ended, Err(FalconError::Status(404)));
}

#[test]
fn nothing_is_fetched_for_nobody() {
    let mut collector = Collector::new(&settings(features(true)));
    let calls = run(&mut collector, |call| {
        Ok(if call.starts_with("GET /policy/combined") {
            found("[]")
        } else {
            parsed("{}")
        })
    })
    .unwrap();
    assert!(calls.iter().all(|call| !call.contains("entities/devices")));
    assert!(calls.iter().all(|call| !call.contains("entities/vulnerabilities")));
    assert_eq!(collector.into_data().devices.len(), 0);
}

#[test]
fn vulnerabilities_are_asked_for_in_groups_of_fifty() {
    let names: Vec<String> = (0..120).map(|n| format!("d{}", n)).collect();
    let devices: Vec<String> = names
        .iter()
        .map(|name| format!(r#"{{"device_id": "{}"}}"#, name))
        .collect();
    let mut wanted = features(false);
    wanted.vulnerability_summary = true;
    let mut config = settings(wanted);
    config.page_size = 1000;
    let mut collector = Collector::new(&config);
    let calls = run(&mut collector, |call| {
        Ok(if call.starts_with("GET /devices/queries") {
            parsed(&format!(
                r#"{{"resources": {}}}"#,
                serde_json::to_string(&names).unwrap()
            ))
        } else if call.starts_with("POST /devices") && call.contains("\"d0\"") {
            found(&format!("[{}]", devices.join(",")))
        } else if call.contains("filter=aid:[\"d0\"") {
            ids(&["v"])
        } else if call.ends_with("?ids=v") {
            found(r#"[{"aid": "d0"}, {"aid": "d0", "cve": {"base_score": 7.5}}]"#)
        } else {
            parsed("{}")
        })
    })
    .unwrap();
    let filters = calls.iter().filter(|call| call.contains("filter=aid:")).count();
    assert_eq!(filters, 3);
    let batches: Vec<&String> = calls.iter().filter(|call| call.starts_with("POST")).collect();
    assert_eq!(batches.len(), 2);
    assert!(batches[0].contains("\"d99\""));
    assert!(!batches[0].contains("\"d100\""));
    let data = collector.into_data();
    assert_eq!(data.devices.len(), 120);
    assert_eq!(data.vulns.len(), 1);
    assert_eq!(data.vulns.get("d0").unwrap().total, 2);
}

#[test]
fn replies_behind_the_end_change_nothing() {
    let mut collector = Collector::new(&settings(features(false)));
    run(&mut collector, answer_all).unwrap();
    assert_eq!(
        collector.take_reply(Err(FalconError::Transport), "later", "earlier"),
        Ok(())
    );
    assert!(!collector.looks_back());
    assert_eq!(collector.into_data().refreshed, "2019-01-01T12:00:00Z");
}

// Records

fn exposure() -> Exposure {
    Exposure {
        zta_points: 0,
        alerts_critical: 0,
        alerts_high: 0,
        detections_critical: 0,
        detections_high: 0,
        incidents: 0,
        vulns_critical: 0,
        vulns_high: 0,
        max_cvss: 0,
    }
}

#[test]
fn risk_adds_up_to_a_hundred() {
    assert_eq!(risk(&exposure()), 0);
    let mut one = exposure();
    one.zta_points = 1;
    one.alerts_critical = 1;
    one.alerts_high = 1;
    one.detections_critical = 1;
    one.detections_high = 1;
    one.incidents = 1;
    one.vulns_critical = 1;
    one.vulns_high = 1;
    one.max_cvss = (9.8f64).to_bits();
    assert_eq!(risk(&one), 1 + 12 + 8 + 12 + 8 + 10 + 5 + 2 + 9);
    one.alerts_critical = 2;
    assert_eq!(risk(&one), 79);
    one.incidents = u64::MAX;
    one.zta_points = u64::MAX;
    assert_eq!(risk(&one), 100);
}

#[test]
fn risk_means_a_state() {
    let states: Vec<&str> = [0, 29, 30, 49, 50, 69, 70, 100]
        .into_iter()
        .map(compliance)
        .collect();
    assert_eq!(
        states,
        vec![
            "Compliant",
            "Compliant",
            "Warning",
            "Warning",
            "NonCompliant",
            "NonCompliant",
            "Critical",
            "Critical"
        ]
    );
}

#[test]
fn severity_is_a_word_in_the_text() {
    let values = list(r#"[{"s": "CRITICAL"}, {"critical_count": 0}, {"s": "low"}]"#);
    assert_eq!(severity(&values, "critical"), 2);
    assert_eq!(severity(&values, "high"), 0);
    assert_eq!(pick_texts(&list(r#"["a", 1, "b"]"#)), vec!["a", "b"]);
}

fn sample() -> Data {
    let mut data = Data::new();
    index(
        &mut data.zta,
        &list(r#"[{"aid": "d1", "assessment": {"overall": 40}}]"#),
        "aid",
    );
    index(&mut data.prevention, &list(r#"[{"id": "p1", "name": "Prevent"}]"#), "id");
    index(&mut data.sensor, &list(r#"[{"id": "s1"}]"#), "id");
    index(&mut data.groups, &list(r#"[{"id": "g1", "name": "One"}, {"id": "g2", "name": "Two"}]"#), "id");
    data.alerts = by_device(&list(
        r#"[{"device": {"device_id": "d1"}, "s": "Critical"}, {"device": {"device_id": "d1"}, "s": "High"}]"#,
    ));
    data.detections = by_device(&list(r#"[{"device": {"device_id": "d1"}, "s": "High"}]"#));
    data.incidents = by_host(&list(r#"[{"hosts": [{"device_id": "d1"}]}]"#));
    count_all(
        &mut data.vulns,
        &list(r#"[{"aid": "d1", "cve": {"base_score": 9.8, "id": "CVE-9"}}, {"aid": "d1", "cve": {"base_score": 7}}]"#),
    );
    data.available = vec![("hosts".to_string(), true), ("alerts".to_string(), false)];
    data.refreshed = "now".into();
    data
}

const DEVICE: &str = r#"{
    "device_id": "d1", "mac_address": "00-1a-2b-3c-4d-5e", "local_ip": "10.0.0.1",
    "external_ip": "1.2.3.4", "hostname": "one", "os_version": "os", "platform_name": "p",
    "platform_id": "0", "system_manufacturer": "m", "system_product_name": "n",
    "serial_number": "s", "machine_domain": "md", "agent_version": "a", "last_seen": "l",
    "first_seen": "f", "status": "normal", "groups": ["g1", "gx", "g2", 7],
    "device_policies": {"prevention": {"policy_id": "p1"}, "sensor_update": {"policy_id": "s1"}}
}"#;

#[test]
fn records_a_managed_device() {
    let data = sample();
    let device = parsed(DEVICE);
    assert_eq!(zta_overall(&device, &data), Some(&Value::from(40)));
    assert_eq!(
        managed(&device, &data, 18),
        parsed(
            r#"{
                "assetId": "d1", "assetMacAddress": "00:1A:2B:3C:4D:5E",
                "assetIpAddress": "10.0.0.1", "assetExternalIp": "1.2.3.4",
                "assetHostname": "one", "osVersion": "os", "platformName": "p",
                "platformId": "0", "systemManufacturer": "m", "systemProductName": "n",
                "serialNumber": "s", "machineDomain": "md", "agentVersion": "a",
                "lastSeen": "l", "firstSeen": "f", "deviceStatus": "normal",
                "ztaOverallScore": 40, "preventionPolicyId": "p1",
                "preventionPolicyName": "Prevent", "sensorPolicyId": "s1",
                "sensorPolicyName": null, "hostGroupIds": "g1,gx,g2",
                "hostGroupNames": "One,Two", "alertCriticalCount": 1, "alertHighCount": 1,
                "alertTotalCount": 2, "detectionCriticalCount": 0, "detectionHighCount": 1,
                "detectionTotalCount": 1, "incidentCount": 1, "vulnCriticalCount": 1,
                "vulnHighCount": 1, "vulnTotalCount": 2, "vulnMaxCvss": 9.8,
                "riskScore": 72, "complianceState": "Critical", "isHighRisk": true,
                "isCriticalRisk": true, "dataSource": "CrowdStrike Falcon",
                "lastUpdated": "now"
            }"#
        )
    );
}

#[test]
fn records_a_device_of_which_little_is_known() {
    let record = managed(&parsed("{}"), &Data::new(), 0);
    assert_eq!(record["assetId"], Value::from(""));
    assert_eq!(record["assetMacAddress"], Value::Null);
    assert_eq!(record["hostGroupIds"], Value::Null);
    assert_eq!(record["hostGroupNames"], Value::Null);
    assert_eq!(record["preventionPolicyId"], Value::from(""));
    assert_eq!(record["preventionPolicyName"], Value::Null);
    assert_eq!(record["ztaOverallScore"], Value::Null);
    assert_eq!(record["vulnMaxCvss"], Value::from(0.0));
    assert_eq!(record["riskScore"], Value::from(0));
    assert_eq!(record["complianceState"], Value::from("Compliant"));
    assert_eq!(record["isHighRisk"], Value::from(false));
    assert_eq!(record.as_object().unwrap().len(), 40);
}

#[test]
fn records_an_unmanaged_asset() {
    let asset = parsed(
        r#"{"id": "u", "mac_address": "112233445566", "local_ip_addresses": ["10.0.0.9", "10.0.0.10"],
            "hostname": "h", "os_version": "o", "platform_name": "p", "system_manufacturer": "m",
            "discoverer_product_type_desc": "dp", "last_seen_timestamp": "l",
            "first_seen_timestamp": "f"}"#,
    );
    assert_eq!(find_mac(&asset).as_deref(), Some("11:22:33:44:55:66"));
    assert_eq!(
        unmanaged_record(&asset, "now"),
        parsed(
            r#"{"assetId": "u", "assetMacAddress": "11:22:33:44:55:66", "assetIpAddress": "10.0.0.9",
                "assetHostname": "h", "osVersion": "o", "platformName": "p",
                "systemManufacturer": "m", "discoveryMethod": "dp", "lastSeen": "l",
                "firstSeen": "f", "isManaged": false, "riskScore": 50,
                "complianceState": "Unknown", "dataSource": "CrowdStrike Discover",
                "lastUpdated": "now"}"#
        )
    );
    let bare = unmanaged_record(&parsed(r#"{"local_ip_addresses": []}"#), "");
    assert_eq!(bare["assetIpAddress"], Value::Null);
    assert_eq!(bare["assetId"], Value::Null);
}

// Reports

#[test]
fn a_report_is_one_document() {
    let mut data = sample();
    data.devices = vec![
        parsed(DEVICE),
        parsed(r#"{"device_id": "d2"}"#),
        parsed(r#"{"device_id": "d3", "mac_address": "0a1b2c3d4e5f"}"#),
    ];
    data.unmanaged = vec![
        parsed(r#"{"id": "u1", "mac_address": "bad"}"#),
        parsed(r#"{"id": "u2", "mac_address": "112233445566"}"#),
    ];
    let mut report = Report::new(data);
    let mut pieces = Vec::new();
    loop {
        let points = match report.next_overall() {
            Some(overall) => ((100.0 - overall.as_f64().unwrap()) * 0.3) as u64,
            None => 0,
        };
        match report.next_piece(points) {
            Some(piece) => pieces.push(piece),
            None => break,
        }
    }
    assert_eq!(pieces.len(), 6);
    assert_eq!(pieces[0], r#"{"endpoints":["#);
    assert!(pieces[1].starts_with(r#"{"agentVersion":"a""#));
    assert!(pieces[2].starts_with(r#",{"agentVersion":null"#));
    assert_eq!(pieces[3], r#"],"unmanaged":["#);
    assert!(pieces[4].starts_with('{'));
    assert_eq!(pieces[5], tail_piece());
    assert_eq!(report.next_piece(0), None);
    let document = parsed(&pieces.concat());
    let endpoints = document["endpoints"].as_array().unwrap();
    assert_eq!(endpoints.len(), 2);
    assert_eq!(endpoints[0]["riskScore"], Value::from(72));
    assert_eq!(endpoints[1]["assetId"], Value::from("d3"));
    assert_eq!(document["unmanaged"][0]["assetId"], Value::from("u2"));
    assert_eq!(document["total"], Value::from(2));
}

fn tail_piece() -> String {
    [
        r#"],"apiStatus":{"alerts":false,"hosts":true},"lastRefresh":"now","#,
        r#""stats":{"total_devices":2,"unmanaged":1,"with_alerts":1,"with_detections":1,"#,
        r#""with_incidents":1,"with_mac":2,"with_vulns":1,"with_zta":1,"without_mac":0},"#,
        r#""total":2,"totalUnmanaged":1}"#,
    ]
    .concat()
}

#[test]
fn an_empty_report_is_a_document_too() {
    let mut report = Report::new(Data::new());
    assert!(report.next_overall().is_none());
    let mut text = String::new();
    while let Some(piece) = report.next_piece(0) {
        text.push_str(&piece);
    }
    let document = parsed(&text);
    assert_eq!(document["endpoints"], parsed("[]"));
    assert_eq!(document["unmanaged"], parsed("[]"));
    assert_eq!(document["totalUnmanaged"], Value::from(0));
}
