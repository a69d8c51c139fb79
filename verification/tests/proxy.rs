use api_pagination_proxy::auth::{
    accept_request, answer_request, credentials, read_credentials, read_payload,
};
use api_pagination_proxy::config::{
    error_policy_name, pagination_mode, tls_plan, ErrorPolicy, PaginationConfig, TlsConfig, TlsPlan,
};
use api_pagination_proxy::diagnostics::{
    format_client_request, format_payload, masked_credential,
};
use api_pagination_proxy::document::{replace_pointer, split_document};
use api_pagination_proxy::error::{
    error_response, error_summary, plain_error, unauthorized, ProxyError,
};
use api_pagination_proxy::headers::{
    format_headers, forward_headers, forwards, sensitive, value_text,
};
use api_pagination_proxy::query::{
    append_path, build_url, count_encoded, follow_link, is_same_origin, is_short, is_web_scheme, origins_match,
    read_number, set_query,
};
use api_pagination_proxy::text::{
    contains, decimal, parse_number, separate, split_last, split_once, to_lower, trim_end,
};
use serde_json::Value;

fn parsed(text: &str) -> Value {
    serde_json::from_str(text).unwrap()
}

fn pairs(list: &[(&str, &str)]) -> Vec<(String, String)> {
    list.iter()
        .map(|(key, value)| (key.to_string(), value.to_string()))
        .collect()
}

// Documents

#[test]
fn preserves_document_shape_around_array() {
    let document = parsed(r#"{"result": [{"id": 1}], "meta": {"ok": true}}"#);
    let (prefix, suffix) = split_document(&document, "/result").unwrap();
    let output = format!("{}{}{}", prefix, parsed(r#"{"id": 1}"#), suffix);
    assert_eq!(serde_json::from_str::<Value>(&output).unwrap(), document);
}

#[test]
fn splits_at_the_exact_place() {
    let document = parsed(r#"{"b": {"list": [1, 2]}, "a": "x\n", "c": null}"#);
    let (prefix, suffix) = split_document(&document, "/b/list").unwrap();
    assert_eq!(prefix, r#"{"a":"x\n","b":{"list":["#);
    assert_eq!(suffix, r#"]},"c":null}"#);
}

#[test]
fn splits_at_the_root_and_inside_arrays() {
    let root = parsed("[1,2,3]");
    assert_eq!(
        split_document(&root, "").unwrap(),
        ("[".to_string(), "]".to_string())
    );
    let nested = parsed(r#"[0, {"x": []}, true]"#);
    assert_eq!(
        split_document(&nested, "/1/x").unwrap(),
        (r#"[0,{"x":["#.to_string(), "]},true]".to_string())
    );
}

#[test]
fn splits_at_escaped_keys() {
    let document = parsed(r#"{"a/b": {"m~n": [7]}}"#);
    assert_eq!(
        split_document(&document, "/a~1b/m~0n").unwrap(),
        (r#"{"a/b":{"m~n":["#.to_string(), "]}}".to_string())
    );
}

#[test]
fn a_marker_in_the_document_does_no_harm() {
    let document = parsed(r#"{"a": "__STREAM_ARRAY__", "list": ["__STREAM_ARRAY___"], "z": 1}"#);
    let (prefix, suffix) = split_document(&document, "/list").unwrap();
    assert_eq!(prefix, r#"{"a":"__STREAM_ARRAY__","list":["#);
    assert_eq!(suffix, r#"],"z":1}"#);
}

#[test]
fn a_missing_array_is_an_error() {
    let document = parsed(r#"{"result": {"not": "an array"}}"#);
    assert!(matches!(
        split_document(&document, "/result"),
        Err(ProxyError::MissingArray(pointer)) if pointer == "/result"
    ));
    assert!(matches!(
        split_document(&document, "/other"),
        Err(ProxyError::MissingArray(pointer)) if pointer == "/other"
    ));
}

#[test]
fn a_split_does_not_depend_on_the_items() {
    let split = |items: &str| {
        let document = format!(r#"{{"a": {{"b": {}, "c": 1}}, "z": [2]}}"#, items);
        split_document(&parsed(&document), "/a/b").unwrap()
    };
    let first = split("[]");
    assert_eq!(first.0, r#"{"a":{"b":["#);
    assert_eq!(first.1, r#"],"c":1},"z":[2]}"#);
    assert_eq!(split(r#"[1, {"b": []}, "__STREAM_ARRAY__"]"#), first);
}

#[test]
fn values_are_replaced_or_inserted() {
    let put = |document: &str, pointer: &str| {
        let mut root = parsed(document);
        match replace_pointer(&mut root, pointer, Value::from("x")) {
            Ok(()) => Some(root),
            Err(ProxyError::MissingArray(found)) => {
                assert_eq!(found, pointer);
                assert_eq!(root, parsed(document));
                None
            }
            Err(other) => panic!("{:?}", other),
        }
    };
    assert_eq!(put("[1]", ""), Some(parsed(r#""x""#)));
    assert_eq!(put("{}", "/a"), Some(parsed(r#"{"a": "x"}"#)));
    assert_eq!(
        put(r#"{"a": {"c": 1}}"#, "/a/b"),
        Some(parsed(r#"{"a": {"b": "x", "c": 1}}"#))
    );
    assert_eq!(
        put(r#"{"a": 1, "b": 2}"#, "/a"),
        Some(parsed(r#"{"a": "x", "b": 2}"#))
    );
    assert_eq!(put("{}", "/m~0n~1o"), Some(parsed(r#"{"m~n/o": "x"}"#)));
    assert_eq!(put("[1, 2]", "/1"), Some(parsed(r#"[1, "x"]"#)));
    assert_eq!(put("[1, 2]", "/2"), None);
    assert_eq!(put(r#"{"a": 1}"#, "/a/b"), None);
    assert_eq!(put("{}", "a"), None);
    assert_eq!(put("{}", "x/a"), None);
}

#[test]
fn any_items_can_stand_between_prefix_and_suffix() {
    let document = parsed(r#"{"meta": [1], "result": [1]}"#);
    let (prefix, suffix) = split_document(&document, "/result").unwrap();
    assert_eq!(
        parsed(&format!("{}{}{}", prefix, r#""x",{"y":2}"#, suffix)),
        parsed(r#"{"meta": [1], "result": ["x", {"y": 2}]}"#)
    );
}

// Query parameters and URLs

#[test]
fn replaces_pagination_query_keys() {
    let mut pairs = vec![
        ("sysparm_limit".into(), "100".into()),
        ("x".into(), "y".into()),
    ];
    set_query(&mut pairs, "sysparm_limit", "10");
    assert_eq!(
        pairs,
        vec![
            ("x".into(), "y".into()),
            ("sysparm_limit".into(), "10".into())
        ]
    );
}

#[test]
fn setting_a_parameter_again_replaces_it() {
    let mut list = pairs(&[("a", "1"), ("k", "old"), ("b", "2"), ("k", "older")]);
    set_query(&mut list, "k", "x");
    set_query(&mut list, "k", "y");
    assert_eq!(list, pairs(&[("a", "1"), ("b", "2"), ("k", "y")]));
}

#[test]
fn reads_the_first_number_under_a_key() {
    let list = pairs(&[("o", "40"), ("o", "50"), ("bad", "x")]);
    assert_eq!(read_number(&list, "o", 7), 40);
    assert_eq!(read_number(&list, "bad", 7), 7);
    assert_eq!(read_number(&list, "missing", 7), 7);
}

#[test]
fn appends_the_inbound_path_to_the_base_url() {
    assert_eq!(append_path("/base/", "/api/x"), "/base/api/x");
    assert_eq!(append_path("/", "/api"), "/api");
    assert_eq!(
        build_url(
            "https://example.com/base/",
            "/api/now/table",
            &pairs(&[("q", "a b&c"), ("n", "1")])
        )
        .unwrap(),
        "https://example.com/base/api/now/table?q=a+b%26c&n=1"
    );
    assert_eq!(
        build_url("https://example.com", "/api", &pairs(&[])).unwrap(),
        "https://example.com/api?"
    );
}

#[test]
fn parameters_read_back_from_the_url() {
    let list = pairs(&[("", ""), ("a b", "c&d=e"), ("ä'\"#", "+%?/"), ("a b", "")]);
    let url = build_url("https://example.com/?old=1", "/x", &list).unwrap();
    let read: Vec<(String, String)> = url::Url::parse(&url)
        .unwrap()
        .query_pairs()
        .into_owned()
        .collect();
    assert_eq!(read, list);
}

#[test]
fn a_base_url_that_is_none_is_a_configuration_error() {
    assert!(matches!(
        build_url("no url", "/api", &pairs(&[])),
        Err(ProxyError::Config(message)) if message == "relative URL without a base"
    ));
}

#[test]
fn long_urls_are_built() {
    let base = format!("https://example.com/{}", "a".repeat(17_000_000));
    assert_eq!(
        build_url(&base, "/b", &pairs(&[])).unwrap().len(),
        17_000_000 + "https://example.com//b?".len()
    );
    assert!(is_short("https://example.com/", "/", "/b", ""));
    assert_eq!(count_encoded("/a'b|c"), 6);
    assert_eq!(count_encoded("/a b"), 6);
    assert_eq!(count_encoded("/\u{e9}\u{4e00}\u{1f600}"), 1 + 6 + 9 + 12);
    assert_eq!(count_encoded("\"<>`#?{}\u{7f}~"), 27 + 1);
}

#[test]
fn a_url_that_does_not_read_back_is_refused() {
    let label: String = (0..900)
        .map(|k| char::from_u32(0x4e00 + 23 * k).unwrap())
        .collect();
    let base = format!("https://{}/", label);
    match build_url(&base, "/a", &pairs(&[])) {
        Err(ProxyError::Config(message)) => {
            assert_eq!(message, "upstream URL cannot be read back")
        }
        other => panic!("{:?}", other),
    }
    assert_eq!(
        build_url("https://\u{4e00}.example", "/a b", &pairs(&[("q", "x y")])).unwrap(),
        "https://xn--4gq.example/a%20b?q=x+y"
    );
}

#[test]
fn compares_origins() {
    assert!(is_same_origin("https://a.example/x", "https://a.example:443/y"));
    assert!(!is_same_origin("https://a.example", "http://a.example"));
    assert!(!is_same_origin("https://a.example", "https://b.example"));
    assert!(!is_same_origin("https://a.example", "https://a.example:8443"));
    assert!(!is_same_origin("data:text/plain,x", "data:text/plain,x"));
    assert!(!is_same_origin("nothing", "nothing"));
    assert!(!is_same_origin("https://a.example", "blob:https://a.example/x"));
    let nested = format!("{}https://a.example/", "blob:".repeat(100_000));
    assert!(!is_same_origin("https://a.example", &nested));
    assert_eq!(
        follow_link("https://a.example", "https://a.example/x", &nested),
        None
    );
    assert!(is_web_scheme(Some("http".into())));
    assert!(is_web_scheme(Some("https".into())));
    assert!(!is_web_scheme(Some("ftp".into())));
    assert!(!is_web_scheme(None));
    assert!(origins_match(Some("x".into()), Some("x".into())));
    assert!(!origins_match(Some("x".into()), Some("y".into())));
    assert!(!origins_match(None, None));
}

#[test]
fn follows_links_within_the_origin_only() {
    let base = "https://a.example/base";
    let current = "https://a.example/base/list?page=1";
    assert_eq!(
        follow_link(base, current, "?page=2").as_deref(),
        Some("https://a.example/base/list?page=2")
    );
    assert_eq!(
        follow_link(base, current, "/other").as_deref(),
        Some("https://a.example/other")
    );
    assert_eq!(
        follow_link(base, current, "https://a.example/next").as_deref(),
        Some("https://a.example/next")
    );
    assert_eq!(follow_link(base, current, "https://b.example/next"), None);
    assert_eq!(follow_link(base, current, "//b.example/next"), None);
    assert_eq!(follow_link(base, current, "https://"), None);
}

// Headers

#[test]
fn filters_authentication_headers() {
    let mut headers = http::HeaderMap::new();
    headers.insert("host", "local.example".parse().unwrap());
    headers.insert("authorization", "Bearer secret".parse().unwrap());
    headers.insert("accept-encoding", "gzip".parse().unwrap());
    headers.insert("x-request-id", "abc".parse().unwrap());
    let forwarded = forward_headers(&headers);
    assert!(!forwarded.contains_key("host"));
    assert!(!forwarded.contains_key("authorization"));
    assert!(!forwarded.contains_key("accept-encoding"));
    assert_eq!(forwarded.get("x-request-id").unwrap(), "abc");
}

#[test]
fn forwards_every_value_of_a_header_in_order() {
    let mut headers = http::HeaderMap::new();
    headers.append("x-many", "1".parse().unwrap());
    headers.append("x-csrf-token", "secret".parse().unwrap());
    headers.append("x-many", "2".parse().unwrap());
    headers.append("x-other", http::HeaderValue::from_bytes(b"\xff").unwrap());
    let forwarded = forward_headers(&headers);
    let many: Vec<&http::HeaderValue> = forwarded.get_all("x-many").iter().collect();
    assert_eq!(many, vec!["1", "2"]);
    assert_eq!(forwarded.get("x-other").unwrap().as_bytes(), b"\xff");
    assert_eq!(forwarded.len(), 3);
}

#[test]
fn forwarding_keeps_marks_and_unusual_names() {
    let mut headers = http::HeaderMap::new();
    let mut marked: http::HeaderValue = "pin".parse().unwrap();
    marked.set_sensitive(true);
    headers.append("x-pin", marked);
    let quote = http::HeaderName::from_lowercase(b"x\"y").unwrap();
    headers.append(quote.clone(), "q".parse().unwrap());
    let secret = http::HeaderName::from_lowercase(b"x\"token").unwrap();
    headers.append(secret.clone(), "s".parse().unwrap());
    let forwarded = forward_headers(&headers);
    assert!(forwarded.get("x-pin").unwrap().is_sensitive());
    assert_eq!(forwarded.get(quote).unwrap(), "q");
    assert!(forwarded.get(secret).is_none());
    assert_eq!(forward_headers(&forwarded), forwarded);
}

#[test]
fn forwards_any_number_of_lines() {
    let mut headers = http::HeaderMap::new();
    for n in 0..7000 {
        headers.append("x-many", n.to_string().parse().unwrap());
    }
    headers.append("authorization", "secret".parse().unwrap());
    let forwarded = forward_headers(&headers);
    assert_eq!(forwarded.len(), 7000);
    let last = forwarded.get_all("x-many").iter().last().unwrap();
    assert_eq!(last, "6999");
}

#[test]
fn forwards_even_where_a_map_is_full() {
    let mut headers = http::HeaderMap::new();
    headers.append("host", "a".parse().unwrap());
    headers.append("x-token", "s".parse().unwrap());
    headers.append("x-first", "1".parse().unwrap());
    headers.append("x-first", "2".parse().unwrap());
    let mut n = 0;
    while headers
        .try_append(
            http::HeaderName::from_bytes(format!("x-{}", n).as_bytes()).unwrap(),
            "v".parse().unwrap(),
        )
        .is_ok()
    {
        n += 1;
    }
    let forwarded = forward_headers(&headers);
    assert_eq!(forwarded.len(), headers.len() - 2);
    assert!(!forwarded.contains_key("host"));
    assert!(!forwarded.contains_key("x-token"));
    let first: Vec<&http::HeaderValue> = forwarded.get_all("x-first").iter().collect();
    assert_eq!(first, vec!["1", "2"]);
}

#[test]
fn names_decide_what_is_forwarded() {
    assert!(forwards("x-request-id"));
    assert!(!forwards("Host"));
    assert!(!forwards("Accept-Encoding"));
    assert!(!forwards("X-AUTH-Key"));
    assert!(!forwards("my-credentials"));
    assert!(sensitive("Proxy-Authorization"));
    assert!(sensitive("x-token"));
    assert!(!sensitive("accept"));
}

#[test]
fn logs_headers_without_secrets() {
    let mut headers = http::HeaderMap::new();
    assert_eq!(format_headers(&headers), "headers: <none>");
    headers.append("accept", "*/*".parse().unwrap());
    headers.append("authorization", "Basic c2VjcmV0".parse().unwrap());
    headers.append("x-raw", http::HeaderValue::from_bytes(b"\x80").unwrap());
    assert_eq!(
        format_headers(&headers),
        "headers:\naccept: */*\nauthorization: <redacted>\nx-raw: <non-UTF-8 header value>"
    );
}

#[test]
fn reads_visible_header_values() {
    assert_eq!(value_text(b"a\tb").as_deref(), Some("a\tb"));
    assert_eq!(value_text(b""), Some(String::new()));
    assert_eq!(value_text(b"\x7f"), None);
    assert_eq!(value_text(b"\xc3\xa9"), None);
}

// Diagnostics

#[test]
fn masks_credentials_with_three_characters_and_six_asterisks() {
    assert_eq!(masked_credential("username"), "use******");
    assert_eq!(masked_credential("åßçdef"), "åßç******");
    assert_eq!(masked_credential("ab"), "ab******");
}

#[test]
fn a_mask_hides_all_but_three_characters() {
    assert_eq!(masked_credential(""), "******");
    assert_eq!(masked_credential("abc"), "abc******");
    assert_eq!(masked_credential("abcd"), masked_credential("abcxyz"));
}

#[test]
fn wraps_upstream_payload_at_sixty_characters() {
    let payload = "a".repeat(61);
    assert_eq!(format_payload(&payload), format!("{}\na", "a".repeat(60)));
}

#[test]
fn wrapping_starts_anew_behind_a_line_break() {
    assert_eq!(format_payload(""), "<empty>");
    let payload = format!("{}\n{}", "a".repeat(60), "b".repeat(61));
    assert_eq!(
        format_payload(&payload),
        format!("{}\n{}\nb", "a".repeat(60), "b".repeat(60))
    );
    assert_eq!(format_payload(&format_payload(&payload)), format_payload(&payload));
    let short = format!("{}\n\n{}", "a".repeat(60), "b");
    assert_eq!(format_payload(&short), short);
}

#[test]
fn formats_a_client_request() {
    let mut headers = http::HeaderMap::new();
    headers.append("x-token", "abc".parse().unwrap());
    assert_eq!(
        format_client_request("GET", "/api?x=1", &headers),
        "GET /api?x=1\nheaders:\nx-token: <redacted>\nbody: <none; GET requests only>"
    );
}

// Authentication

#[test]
fn refuses_headers_without_usable_credentials() {
    let required = Err("HTTP Basic Authentication is required".to_string());
    assert_eq!(credentials(None), required);
    assert_eq!(credentials(Some(b"Basic")), required);
    assert_eq!(credentials(Some(b"Bearer Y2xpZW50OnNlY3JldA==")), required);
    assert_eq!(credentials(Some(b"Basic !!!")), required);
    assert_eq!(credentials(Some(b"Basic Y2xpZW50")), required);
    assert_eq!(credentials(Some(b"Basic OnNlY3JldA==")), required);
    assert_eq!(credentials(Some(b"Basic Y2xpZW50Og==")), required);
    assert_eq!(credentials(Some(b"Basic /w==")), required);
    assert_eq!(credentials(Some(b"Basic \xff")), required);
}

#[test]
fn reads_credentials_with_any_case_of_the_scheme() {
    assert_eq!(
        credentials(Some(b"bAsIc dTpwOnE=")).unwrap(),
        ("u".to_string(), "p:q".to_string())
    );
    assert_eq!(read_payload(b"Basic abc def").as_deref(), Some("abc def"));
    assert_eq!(
        read_credentials(Some(b"u:p".to_vec())),
        Some(("u".to_string(), "p".to_string()))
    );
    assert_eq!(read_credentials(Some(vec![0xff, b':', b'x'])), None);
    assert_eq!(read_credentials(None), None);
}

#[test]
fn accepts_only_authenticated_gets() {
    assert_eq!(
        accept_request("GET", Some(b"Basic dTpw")).ok(),
        Some(("u".to_string(), "p".to_string()))
    );
    let method = accept_request("POST", Some(b"Basic dTpw")).err().unwrap();
    assert_eq!(method.status, 405);
    assert_eq!(method.body, "GET only");
    assert_eq!(method.challenge, None);
    let missing = accept_request("GET", None).err().unwrap();
    assert_eq!(missing.status, 401);
    assert_eq!(missing.content_type, "text/plain");
    assert_eq!(
        missing.challenge.as_deref(),
        Some("Basic realm=\"api-pagination-proxy\"")
    );
}

#[test]
fn answers_requests_by_their_credentials() {
    let pair = || Some(("u".to_string(), "p".to_string()));
    assert_eq!(answer_request("GET", pair()).ok(), pair());
    assert_eq!(answer_request("HEAD", pair()).err().unwrap().status, 405);
    let missing = answer_request("GET", None).err().unwrap();
    assert_eq!(missing.status, 401);
    assert_eq!(missing.body, "HTTP Basic Authentication is required");
}

// Errors

fn json_error() -> ProxyError {
    ProxyError::Json(serde_json::from_str::<Value>("{").err().unwrap())
}

#[test]
fn summarises_every_failure() {
    let cases: Vec<(ProxyError, &str, u16)> = vec![
        (
            ProxyError::Config("bad".into()),
            "configuration error: bad",
            500,
        ),
        (
            ProxyError::Upstream("secret detail".into()),
            "upstream transport error",
            502,
        ),
        (
            ProxyError::UpstreamStatus {
                status: 500,
                body: "secret body".into(),
            },
            "upstream HTTP status 500 Internal Server Error",
            502,
        ),
        (
            ProxyError::Authentication { status: 403 },
            "upstream authentication failed with HTTP status 403 Forbidden",
            403,
        ),
        (json_error(), "invalid upstream JSON", 502),
        (
            ProxyError::MissingArray("/a\"b".into()),
            "missing array at JSON pointer \"/a\\\"b\"",
            502,
        ),
        (
            ProxyError::MissingNext("/next".into()),
            "invalid next link at JSON pointer \"/next\"",
            502,
        ),
        (
            ProxyError::ForeignNext("/next".into()),
            "next link leaves the upstream origin at JSON pointer \"/next\"",
            502,
        ),
    ];
    for (error, summary, status) in cases {
        assert_eq!(error_summary(&error), summary);
        let reply = error_response(&error);
        assert_eq!(reply.status, status);
        assert_eq!(reply.body, summary);
        assert_eq!(reply.content_type, "text/plain");
        assert_eq!(reply.challenge, None);
    }
}

#[test]
fn an_unknown_status_has_a_placeholder() {
    assert_eq!(
        error_summary(&ProxyError::UpstreamStatus {
            status: 799,
            body: String::new()
        }),
        "upstream HTTP status 799 <unknown status code>"
    );
}

#[test]
fn builds_plain_replies() {
    let plain = plain_error(418, "short");
    assert_eq!((plain.status, plain.body.as_str()), (418, "short"));
    let challenge = unauthorized("who?");
    assert_eq!((challenge.status, challenge.body.as_str()), (401, "who?"));
    assert!(challenge.challenge.is_some());
}

// Configuration

#[test]
fn names_modes_and_policies() {
    let offset = PaginationConfig::Offset {
        offset_parameter: "o".into(),
        page_size_parameter: "n".into(),
        start_offset: 0,
        page_size: 1,
    };
    let page = PaginationConfig::Page {
        page_parameter: "p".into(),
        page_size_parameter: "n".into(),
        start_page: 1,
        page_size: 1,
    };
    let link = PaginationConfig::NextLink {
        next_link_path: "/next".into(),
    };
    assert_eq!(pagination_mode(&offset), "offset");
    assert_eq!(pagination_mode(&page), "page");
    assert_eq!(pagination_mode(&link), "next_link");
    assert_eq!(error_policy_name(&ErrorPolicy::Terminate), "terminate");
    assert_eq!(error_policy_name(&ErrorPolicy::Complete), "complete");
    assert_eq!(ErrorPolicy::default(), ErrorPolicy::Terminate);
}

#[test]
fn plans_the_tls_material() {
    let named = TlsConfig {
        certificate_directory: "tls".into(),
        server_names: vec!["localhost".into()],
    };
    let nameless = TlsConfig {
        certificate_directory: "tls".into(),
        server_names: vec![],
    };
    assert_eq!(tls_plan(&nameless, true, true, true), TlsPlan::NoServerNames);
    assert_eq!(tls_plan(&named, true, true, true), TlsPlan::Reuse);
    assert_eq!(tls_plan(&named, false, false, false), TlsPlan::Generate);
    assert_eq!(tls_plan(&named, true, false, false), TlsPlan::Incomplete);
    assert_eq!(tls_plan(&named, false, true, true), TlsPlan::Incomplete);
}

// Text

#[test]
fn reads_and_writes_numbers() {
    assert_eq!(decimal(0), "0");
    assert_eq!(decimal(18446744073709551615), "18446744073709551615");
    assert_eq!(parse_number("18446744073709551615"), Some(u64::MAX));
    assert_eq!(parse_number("18446744073709551616"), None);
    assert_eq!(parse_number("+5"), Some(5));
    assert_eq!(parse_number("007"), Some(7));
    assert_eq!(parse_number(""), None);
    assert_eq!(parse_number("+"), None);
    assert_eq!(parse_number("-1"), None);
    assert_eq!(parse_number("1 "), None);
}

#[test]
fn cuts_and_joins_texts() {
    assert_eq!(
        split_once("a:b:c", ':'),
        Some(("a".to_string(), "b:c".to_string()))
    );
    assert_eq!(split_once("abc", ':'), None);
    assert_eq!(
        split_last("a:b:c", ':'),
        Some(("a:b".to_string(), "c".to_string()))
    );
    assert_eq!(split_last("abc", ':'), None);
    assert_eq!(trim_end("/a//", '/'), "/a");
    assert_eq!(trim_end("//", '/'), "");
    assert_eq!(to_lower("AbÇ"), "abÇ");
    assert!(contains("abcabd", "abd"));
    assert!(!contains("abc", "abcd"));
    assert!(contains("abc", ""));
    assert_eq!(
        separate(&vec!["a".to_string(), "b".to_string()], ", "),
        "a, b"
    );
    assert_eq!(separate(&vec![], ", "), "");
}
