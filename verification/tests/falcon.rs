use api_pagination_proxy::auth::credentials;
use api_pagination_proxy::config::{CrowdStrikeConfig, CrowdStrikeFeatures};
use api_pagination_proxy::falcon::api::{
    accept_crowdstrike, answer_endpoint, check_numbers, error_response, find_fault, judge_probe,
    judge_reply, judge_token, read_pause, read_token, url, validate, Attempts, FalconError,
    Session, Verdict,
};
use api_pagination_proxy::falcon::clock::{can_look_back, cutoff, filter_after, now};
use api_pagination_proxy::falcon::gather::{by_device, by_host, count_all, index};
use api_pagination_proxy::falcon::mac::{checked_mac, mac, pair_digits};
use api_pagination_proxy::falcon::paging::{Fetcher, Pager};
use api_pagination_proxy::falcon::record::{resources, string, text_at};
use api_pagination_proxy::falcon::score::{band, cvss_points, is_below, zero, Band, Summary};
use api_pagination_proxy::falcon::stage::filter_devices;
use api_pagination_proxy::falcon::table::Table;
use serde_json::Value;

fn parsed(text: &str) -> Value {
    serde_json::from_str(text).unwrap()
}

fn list(text: &str) -> Vec<Value> {
    serde_json::from_str(text).unwrap()
}

fn features(on: bool) -> CrowdStrikeFeatures {
    CrowdStrikeFeatures {
        policies: on,
        zta: on,
        alerts: on,
        detections: on,
        incidents: on,
        vulnerability_summary: on,
        host_groups: on,
        unmanaged_assets: on,
    }
}

fn settings() -> CrowdStrikeConfig {
    CrowdStrikeConfig {
        enabled: true,
        base_url: "https://api.crowdstrike.com/".into(),
        timeout_seconds: 30,
        page_size: 100,
        lookback_days: 30,
        rate_limit_retries: 2,
        features: features(true),
    }
}

#[test]
fn parses_oauth_client_credentials_from_basic_auth() {
    let header: http::HeaderValue = "Basic Y2xpZW50OnNlY3JldA==".parse().unwrap();
    assert_eq!(
        credentials(Some(header.as_bytes())).unwrap(),
        ("client".into(), "secret".into())
    );
}

// MAC addresses

#[test]
fn normalizes_mac_addresses() {
    assert_eq!(
        mac(Some("001a.2b3c-4d5e")).as_deref(),
        Some("00:1A:2B:3C:4D:5E")
    );
    assert!(mac(Some("not-a-mac")).is_none());
}

#[test]
fn the_common_form_of_a_mac_address_is_its_own() {
    assert_eq!(
        mac(Some("00:1A:2B:3C:4D:5E")).as_deref(),
        Some("00:1A:2B:3C:4D:5E")
    );
    assert_eq!(mac(None), None);
    assert_eq!(mac(Some("")), None);
    assert_eq!(mac(Some("001a2b3c4d5e6")), None);
}

#[test]
fn a_mac_address_may_hold_other_characters() {
    assert_eq!(
        checked_mac(Some("éàü123456")).as_deref(),
        Some("É:À:Ü:12:34:56")
    );
    assert_eq!(checked_mac(Some("1é2345678901")), None);
    assert_eq!(checked_mac(Some("1é234567890")), None);
    assert_eq!(checked_mac(Some("€€€€")), None);
    assert_eq!(checked_mac(None), None);
    assert_eq!(pair_digits("abcdefghijkl").as_deref(), Some("ab:cd:ef:gh:ij:kl"));
    assert_eq!(pair_digits("abc"), None);
}

// Settings and requests

#[test]
fn validates_settings() {
    assert_eq!(validate(&settings()), Ok(()));
    let mut plain = settings();
    plain.base_url = "http://api.crowdstrike.com".into();
    assert_eq!(
        validate(&plain),
        Err("crowdstrike.base_url must be an HTTPS URL".to_string())
    );
    let mut none = settings();
    none.base_url = "api".into();
    assert_eq!(
        validate(&none),
        Err("relative URL without a base".to_string())
    );
    assert_eq!(
        check_numbers(0, 1),
        Err("crowdstrike.page_size must be 1 to 1000".to_string())
    );
    assert_eq!(
        check_numbers(1001, 1),
        Err("crowdstrike.page_size must be 1 to 1000".to_string())
    );
    assert_eq!(
        check_numbers(1000, -1),
        Err("crowdstrike.lookback_days must not be negative".to_string())
    );
    assert_eq!(check_numbers(1, 0), Ok(()));
}

#[test]
fn accepts_requests_to_the_enabled_endpoint() {
    let basic: Option<&[u8]> = Some(b"Basic dTpw");
    assert_eq!(
        accept_crowdstrike(&Some(settings()), "GET", basic).ok(),
        Some(("u".to_string(), "p".to_string()))
    );
    let missing = accept_crowdstrike(&None, "GET", basic).err().unwrap();
    assert_eq!(
        (missing.status, missing.body.as_str()),
        (404, "CrowdStrike endpoint is disabled")
    );
    let mut off = settings();
    off.enabled = false;
    assert_eq!(
        accept_crowdstrike(&Some(off), "GET", basic)
            .err()
            .unwrap()
            .status,
        404
    );
    assert_eq!(
        accept_crowdstrike(&Some(settings()), "PUT", basic)
            .err()
            .unwrap()
            .status,
        405
    );
    assert_eq!(
        accept_crowdstrike(&Some(settings()), "GET", None)
            .err()
            .unwrap()
            .status,
        401
    );
    let mut broken = settings();
    broken.page_size = 0;
    let reply = accept_crowdstrike(&Some(broken), "GET", basic)
        .err()
        .unwrap();
    assert_eq!(
        (reply.status, reply.body.as_str()),
        (500, "crowdstrike.page_size must be 1 to 1000")
    );
}

#[test]
fn settings_are_judged_by_what_their_url_holds() {
    let https = || Some("https".to_string());
    let host = || Some("h".to_string());
    let path = || Ok("/".to_string());
    assert_eq!(find_fault(path(), https(), host(), 1, 0), Ok(()));
    assert_eq!(
        find_fault(Err("bad".into()), None, None, 0, 0),
        Err("bad".to_string())
    );
    let insecure = Err("crowdstrike.base_url must be an HTTPS URL".to_string());
    assert_eq!(
        find_fault(path(), Some("http".into()), host(), 1, 0),
        insecure
    );
    assert_eq!(find_fault(path(), https(), None, 1, 0), insecure);
    assert_eq!(find_fault(path(), None, host(), 1, 0), insecure);
    let pair = || Some(("u".to_string(), "p".to_string()));
    assert_eq!(answer_endpoint(true, "GET", pair(), None).ok(), pair());
    let status = |r: Result<(String, String), api_pagination_proxy::error::Reply>| {
        r.err().map(|reply| reply.status)
    };
    assert_eq!(status(answer_endpoint(false, "PUT", None, None)), Some(404));
    assert_eq!(
        status(answer_endpoint(true, "PUT", None, Some("x".into()))),
        Some(405)
    );
    assert_eq!(
        status(answer_endpoint(true, "GET", None, Some("x".into()))),
        Some(401)
    );
    assert_eq!(
        status(answer_endpoint(true, "GET", pair(), Some("x".into()))),
        Some(500)
    );
}

#[test]
fn builds_api_urls() {
    assert_eq!(
        url("https://api.crowdstrike.com//", "/oauth2/token").unwrap(),
        "https://api.crowdstrike.com/oauth2/token"
    );
    assert_eq!(url("api", "/x"), Err(FalconError::Transport));
}

#[test]
fn judges_token_replies() {
    assert_eq!(
        judge_token(201, r#"{"access_token":"t"}"#),
        Ok("t".to_string())
    );
    assert_eq!(judge_token(401, ""), Err(FalconError::Auth(401)));
    assert_eq!(judge_token(403, ""), Err(FalconError::Auth(403)));
    assert_eq!(judge_token(500, ""), Err(FalconError::Status(500)));
    assert_eq!(judge_token(200, "{"), Err(FalconError::Decode));
    assert_eq!(
        judge_token(200, r#"{"access_token":1}"#),
        Err(FalconError::Decode)
    );
    assert_eq!(judge_token(200, "[]"), Err(FalconError::Decode));
    assert_eq!(read_token(&parsed("{}")), None);
}

#[test]
fn a_token_is_asked_for_once() {
    let mut session = Session::new();
    assert_eq!(session.token(), None);
    assert_eq!(session.on_token(503, ""), Err(FalconError::Status(503)));
    assert_eq!(session.token(), None);
    assert_eq!(
        session.on_token(201, r#"{"access_token":"t"}"#),
        Ok("t".to_string())
    );
    assert_eq!(session.token(), Some("t".to_string()));
    assert_eq!(session.token(), Some("t".to_string()));
}

#[test]
fn judges_replies_and_retries() {
    assert!(matches!(
        judge_reply(0, 2, 429, Some(b"7"), ""),
        Verdict::Wait(7)
    ));
    assert!(matches!(
        judge_reply(1, 2, 429, Some(b"3600"), ""),
        Verdict::Wait(60)
    ));
    assert!(matches!(
        judge_reply(1, 2, 429, None, ""),
        Verdict::Wait(1)
    ));
    assert!(matches!(
        judge_reply(2, 2, 429, Some(b"7"), ""),
        Verdict::Fail(FalconError::Status(429))
    ));
    assert!(matches!(
        judge_reply(0, 2, 404, None, "{}"),
        Verdict::Fail(FalconError::Status(404))
    ));
    assert!(matches!(
        judge_reply(0, 2, 200, None, "{"),
        Verdict::Fail(FalconError::Decode)
    ));
    match judge_reply(0, 2, 200, None, r#"{"a":1}"#) {
        Verdict::Done(document) => assert_eq!(document, parsed(r#"{"a":1}"#)),
        _ => panic!("the request was answered"),
    }
    assert_eq!(read_pause(Some(b"Wed, 21 Oct 2015 07:28:00 GMT")), 1);
    assert_eq!(read_pause(Some(b"\xff")), 1);
    assert_eq!(read_pause(Some(b"0")), 0);
}

#[test]
fn a_request_is_sent_until_it_is_answered_or_retries_run_out() {
    let run = |retries: u32, statuses: &[u16]| {
        let mut attempts = Attempts::new(retries);
        let mut sends = 0;
        loop {
            sends += 1;
            match attempts.on_reply(statuses[sends - 1], None, "[]") {
                Verdict::Wait(seconds) => assert_eq!(seconds, 1),
                Verdict::Fail(error) => return (sends, Err(error)),
                Verdict::Done(document) => return (sends, Ok(document)),
            }
        }
    };
    assert_eq!(run(2, &[200]), (1, Ok(parsed("[]"))));
    assert_eq!(run(2, &[429, 429, 200]), (3, Ok(parsed("[]"))));
    assert_eq!(run(2, &[429, 500]), (2, Err(FalconError::Status(500))));
    assert_eq!(
        run(2, &[429, 429, 429, 200]),
        (3, Err(FalconError::Status(429)))
    );
    assert_eq!(run(0, &[429, 200]), (1, Err(FalconError::Status(429))));
}

#[test]
fn judges_probes() {
    assert_eq!(judge_probe(&Ok(parsed("{}"))), Ok(true));
    for status in [400, 403, 404] {
        assert_eq!(judge_probe(&Err(FalconError::Status(status))), Ok(false));
    }
    assert_eq!(
        judge_probe(&Err(FalconError::Status(500))),
        Err(FalconError::Status(500))
    );
    assert_eq!(
        judge_probe(&Err(FalconError::Transport)),
        Err(FalconError::Transport)
    );
    assert_eq!(
        judge_probe(&Err(FalconError::Auth(403))),
        Err(FalconError::Auth(403))
    );
}

#[test]
fn answers_for_failures() {
    let told = |error: FalconError| {
        let reply = error_response(error);
        (reply.status, reply.body)
    };
    let failed = "CrowdStrike request failed".to_string();
    assert_eq!(
        told(FalconError::Auth(403)),
        (403, "CrowdStrike rejected client credentials".to_string())
    );
    assert_eq!(told(FalconError::Status(429)), (429, failed.clone()));
    assert_eq!(told(FalconError::Status(500)), (502, failed.clone()));
    assert_eq!(told(FalconError::Status(302)), (502, failed.clone()));
    assert_eq!(told(FalconError::Transport), (502, failed.clone()));
    assert_eq!(told(FalconError::Decode), (502, failed));
}

// Time

#[test]
fn writes_instants() {
    assert_eq!(now(0), "1970-01-01T00:00:00Z");
    assert_eq!(now(1_546_300_800_500_000_000), "2019-01-01T00:00:00.5Z");
    assert_eq!(now(-377_705_116_800_000_000_001), "");
    assert_eq!(now(-377_705_116_800_000_000_000), "");
    assert_eq!(
        now(253_402_300_799_999_999_999),
        "9999-12-31T23:59:59.999999999Z"
    );
    assert_eq!(now(253_402_300_800_000_000_000), "");
}

#[test]
fn looks_back_in_days() {
    assert_eq!(
        cutoff(1_546_300_800_000_000_000, 31),
        "2018-12-01T00:00:00Z"
    );
    assert_eq!(cutoff(0, 0), "1970-01-01T00:00:00Z");
    assert!(can_look_back(0, 30));
    assert!(!can_look_back(0, i64::MAX));
    assert!(!can_look_back(i128::MAX, 0));
    assert!(!can_look_back(253_402_300_799_999_999_999, -1));
    assert_eq!(filter_after("start", "t"), "start:>\"t\"");
}

// Scores

fn bits(score: f64) -> u64 {
    score.to_bits()
}

#[test]
fn orders_scores_as_floats_are_ordered() {
    let scores = [-1.0e300, -2.5, -0.0, 0.0, 0.1, 3.9999, 4.0, 9.0, 1.0e300];
    for a in scores {
        for b in scores {
            assert_eq!(is_below(bits(a), bits(b)), a < b);
        }
    }
}

#[test]
fn bands_begin_at_their_scores() {
    assert_eq!(band(bits(9.0)), Band::Critical);
    assert_eq!(band(bits(10.0)), Band::Critical);
    assert_eq!(band(bits(8.999999)), Band::High);
    assert_eq!(band(bits(7.0)), Band::High);
    assert_eq!(band(bits(6.9)), Band::Medium);
    assert_eq!(band(bits(4.0)), Band::Medium);
    assert_eq!(band(bits(3.9)), Band::Low);
    assert_eq!(band(bits(0.0)), Band::Low);
    assert_eq!(band(bits(-5.0)), Band::Low);
}

#[test]
fn points_are_whole_parts() {
    let scores = [
        -3.0, -0.0, 0.0, 0.99, 1.0, 2.5, 3.0, 4.7, 5.0, 6.1, 7.0, 8.8, 9.0, 9.99, 10.0, 11.0, 1e9,
    ];
    for score in scores {
        assert_eq!(cvss_points(bits(score)), score.min(10.0) as u64);
    }
}

#[test]
fn summarises_vulnerabilities() {
    let mut summary = Summary::new();
    assert_eq!(summary.max_score, Value::from(0.0));
    assert_eq!(zero(), (0, Value::from(0.0)));
    let found = list(
        r#"[
            {"cve": {"base_score": 9.8, "id": "CVE-1"}},
            {"cve": {"base_score": 7, "id": "CVE-2"}},
            {"cve": {"base_score": 5.5}},
            {"cve": {"base_score": "9.9"}},
            {},
            {"cve": {"base_score": 10}}
        ]"#,
    );
    for vulnerability in &found {
        summary.count(vulnerability);
    }
    assert_eq!(
        (
            summary.critical,
            summary.high,
            summary.medium,
            summary.low,
            summary.total
        ),
        (2, 1, 1, 2, 6)
    );
    assert_eq!(summary.max_score, Value::from(10.0));
    assert_eq!(summary.max_bits, bits(10.0));
    assert_eq!(summary.cves, vec!["CVE-1", ""]);
}

#[test]
fn names_at_most_five_critical_vulnerabilities() {
    let mut summary = Summary::new();
    for n in 0..7 {
        summary.count_score(bits(9.5), Value::from(9.5), format!("CVE-{}", n));
    }
    assert_eq!(summary.critical, 7);
    assert_eq!(
        summary.cves,
        vec!["CVE-0", "CVE-1", "CVE-2", "CVE-3", "CVE-4"]
    );
}

// Records and tables

#[test]
fn reads_documents() {
    let document = parsed(r#"{"resources": [1, {"id": "x"}], "name": "n", "a": {"b": "c"}}"#);
    assert_eq!(resources(&document), list(r#"[1, {"id": "x"}]"#));
    assert_eq!(resources(&parsed("{}")), Vec::<Value>::new());
    assert_eq!(resources(&parsed(r#"{"resources": 1}"#)), Vec::<Value>::new());
    assert_eq!(string(&document, "name").as_deref(), Some("n"));
    assert_eq!(string(&document, "resources"), None);
    assert_eq!(text_at(&document, "/a/b"), "c");
    assert_eq!(text_at(&document, "/a/x"), "");
    assert_eq!(text_at(&document, "/resources/0"), "");
}

#[test]
fn tables_hold_one_value_under_a_key() {
    let mut table: Table<u32> = Table::new();
    assert_eq!(table.get("a"), None);
    table.insert("a".into(), 1);
    table.insert("b".into(), 2);
    table.insert("a".into(), 3);
    assert_eq!(table.get("a"), Some(&3));
    assert_eq!(table.len(), 2);
    *table.get_mut("b").unwrap() = 7;
    assert_eq!(table.get("b"), Some(&7));
    assert!(table.get_mut("c").is_none());
    let mut lists: Table<Vec<u32>> = Table::new();
    lists.push("k".into(), 1);
    lists.push("k".into(), 2);
    assert_eq!(lists.get("k"), Some(&vec![1, 2]));
}

#[test]
fn sorts_documents_into_tables() {
    let mut policies: Table<Value> = Table::new();
    index(
        &mut policies,
        &list(r#"[{"id": "1", "v": 1}, {"v": 2}, {"id": "1", "v": 3}]"#),
        "id",
    );
    assert_eq!(policies.len(), 1);
    assert_eq!(policies.get("1"), Some(&parsed(r#"{"id": "1", "v": 3}"#)));

    let alerts = list(
        r#"[{"device": {"device_id": "d"}, "n": 1}, {"n": 2}, {"device": {"device_id": "d"}, "n": 3}]"#,
    );
    let sorted = by_device(&alerts);
    assert_eq!(sorted.len(), 1);
    assert_eq!(
        sorted.get("d"),
        Some(&vec![alerts[0].clone(), alerts[2].clone()])
    );

    let incidents = list(
        r#"[{"hosts": [{"device_id": "d"}, {"device_id": "e"}, {}]}, {"hosts": [{"device_id": "d"}]}, {}]"#,
    );
    let hosts = by_host(&incidents);
    assert_eq!(hosts.len(), 2);
    assert_eq!(hosts.get("d").unwrap().len(), 2);
    assert_eq!(hosts.get("e"), Some(&vec![incidents[0].clone()]));

    let mut vulns: Table<Summary> = Table::new();
    let found = list(
        r#"[{"aid": "d", "cve": {"base_score": 9.1, "id": "C"}}, {"aid": "e"}, {}, {"aid": "d"}]"#,
    );
    count_all(&mut vulns, &found);
    assert_eq!(vulns.len(), 2);
    assert_eq!(vulns.get("d").unwrap().total, 2);
    assert_eq!(vulns.get("d").unwrap().critical, 1);
    assert_eq!(vulns.get("e").unwrap().low, 1);
}

// Paging

fn query(list: &[(&str, &str)]) -> Vec<(String, String)> {
    list.iter()
        .map(|(key, value)| (key.to_string(), value.to_string()))
        .collect()
}

#[test]
fn pages_through_identifiers() {
    let mut pager = Pager::new(Some("f".into()), 2);
    assert_eq!(
        pager.query(),
        query(&[("filter", "f"), ("limit", "2"), ("offset", "0")])
    );
    pager.take(&parsed(
        r#"{"resources": ["a", "b"], "meta": {"pagination": {"total": 3}}}"#,
    ));
    assert!(!pager.done);
    assert_eq!(
        pager.query(),
        query(&[("filter", "f"), ("limit", "2"), ("offset", "2")])
    );
    pager.take(&parsed(
        r#"{"resources": ["c", 7], "meta": {"pagination": {"total": 3}}}"#,
    ));
    assert!(pager.done);
    assert_eq!(pager.ids, vec!["a", "b", "c"]);
}

#[test]
fn paging_ends_with_an_empty_page_or_without_a_total() {
    let mut empty = Pager::new(None, 1);
    assert_eq!(empty.query(), query(&[("limit", "1"), ("offset", "0")]));
    empty.take(&parsed(
        r#"{"resources": [], "meta": {"pagination": {"total": 9}}}"#,
    ));
    assert!(empty.done);
    let mut silent = Pager::new(None, 2);
    silent.take(&parsed(r#"{"resources": ["a", "b"]}"#));
    assert!(silent.done);
    let mut generous = Pager::new(None, 1);
    generous.take(&parsed(r#"{"resources": ["a", "b"]}"#));
    assert!(!generous.done);
    let mut broken = Pager::new(None, 1);
    broken.take(&parsed(
        r#"{"resources": ["a"], "meta": {"pagination": {"total": -3}}}"#,
    ));
    assert!(broken.done);
}

#[test]
fn fetches_in_batches() {
    let ids: Vec<String> = (0..5).map(|n| n.to_string()).collect();
    let mut fetcher = Fetcher::new(ids, 2);
    assert_eq!(fetcher.batch(), vec!["0", "1"]);
    fetcher.take(&parsed(r#"{"resources": [1]}"#));
    assert!(!fetcher.is_done());
    assert_eq!(fetcher.batch(), vec!["2", "3"]);
    fetcher.take(&parsed("{}"));
    assert_eq!(fetcher.batch(), vec!["4"]);
    fetcher.take(&parsed(r#"{"resources": [2, 3]}"#));
    assert!(fetcher.is_done());
    assert_eq!(fetcher.found, list("[1, 2, 3]"));
}

#[test]
fn filters_name_devices() {
    assert_eq!(
        filter_devices(&vec!["a".to_string(), "b".to_string()]),
        "aid:[\"a\",\"b\"]+status: \"open\""
    );
}
