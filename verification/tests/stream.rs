use api_pagination_proxy::config::{
    Config, ErrorPolicy, ListenConfig, PaginationConfig, ResponseConfig, TargetConfig, TlsConfig,
};
use api_pagination_proxy::error::ProxyError;
use api_pagination_proxy::stream::{handle_error, Outcome, PageStream, Step};
use serde_json::Value;

fn config(pagination: PaginationConfig, array_path: &str, policy: ErrorPolicy) -> Config {
    Config {
        listen: ListenConfig {
            address: "127.0.0.1:3030".into(),
            tls: TlsConfig {
                certificate_directory: "tls".into(),
                server_names: vec!["localhost".into()],
            },
        },
        target: TargetConfig {
            base_url: "https://up.example/root".into(),
            ca_bundle_path: None,
            timeout_seconds: None,
        },
        pagination,
        response: ResponseConfig {
            array_path: array_path.into(),
            error_policy: policy,
        },
        crowdstrike: None,
    }
}

fn by_offset(start_offset: u64, page_size: u64) -> PaginationConfig {
    PaginationConfig::Offset {
        offset_parameter: "offset".into(),
        page_size_parameter: "limit".into(),
        start_offset,
        page_size,
    }
}

fn by_page(start_page: u64, page_size: u64) -> PaginationConfig {
    PaginationConfig::Page {
        page_parameter: "page".into(),
        page_size_parameter: "size".into(),
        start_page,
        page_size,
    }
}

fn by_link() -> PaginationConfig {
    PaginationConfig::NextLink {
        next_link_path: "/next".into(),
    }
}

fn is_continue(step: &Step) -> bool {
    matches!(step.outcome, Outcome::Continue)
}

fn is_complete(step: &Step) -> bool {
    matches!(step.outcome, Outcome::Complete)
}

fn failure(step: Step) -> ProxyError {
    match step.outcome {
        Outcome::Fail(error) => error,
        _ => panic!("the stream goes on"),
    }
}

#[test]
fn joins_the_pages_of_an_offset_pagination() {
    let config = config(by_offset(0, 2), "/result", ErrorPolicy::Terminate);
    let mut stream = PageStream::new(&config, "/api", "q=x&offset=99&limit=1000");
    assert_eq!(
        stream.next_request().unwrap(),
        "https://up.example/root/api?q=x&offset=0&limit=2"
    );
    let first = stream.on_response(200, r#"{"meta":1,"result":[1,2],"tail":"t"}"#.into());
    assert!(is_continue(&first));
    assert_eq!(
        first.chunks,
        vec![r#"{"meta":1,"result":["#, "1", ",", "2"]
    );
    assert_eq!(
        stream.next_request().unwrap(),
        "https://up.example/root/api?q=x&offset=2&limit=2"
    );
    let second = stream.on_response(200, r#"{"meta":2,"result":[3,{"a":4}]}"#.into());
    assert!(is_continue(&second));
    assert_eq!(second.chunks, vec![",", "3", ",", r#"{"a":4}"#]);
    assert_eq!(
        stream.next_request().unwrap(),
        "https://up.example/root/api?q=x&offset=4&limit=2"
    );
    let last = stream.on_response(200, r#"{"result":[]}"#.into());
    assert!(is_complete(&last));
    assert!(last.closed_by.is_none());
    assert_eq!(last.chunks, vec![r#"],"tail":"t"}"#]);
    let output = [first.chunks, second.chunks, last.chunks].concat().concat();
    assert_eq!(
        serde_json::from_str::<Value>(&output).unwrap(),
        serde_json::from_str::<Value>(r#"{"meta":1,"result":[1,2,3,{"a":4}],"tail":"t"}"#).unwrap()
    );
}

#[test]
fn counts_pages() {
    let config = config(by_page(1, 1), "", ErrorPolicy::Terminate);
    let mut stream = PageStream::new(&config, "/list", "");
    assert_eq!(
        stream.next_request().unwrap(),
        "https://up.example/root/list?page=1&size=1"
    );
    assert_eq!(
        stream.on_response(200, "[10]".into()).chunks,
        vec!["[", "10"]
    );
    assert_eq!(
        stream.next_request().unwrap(),
        "https://up.example/root/list?page=2&size=1"
    );
    let last = stream.on_response(204, "[]".into());
    assert!(is_complete(&last));
    assert_eq!(last.chunks, vec!["]"]);
}

#[test]
fn an_empty_first_page_is_a_document() {
    let config = config(by_offset(5, 2), "/r", ErrorPolicy::Terminate);
    let mut stream = PageStream::new(&config, "/", "");
    assert_eq!(
        stream.next_request().unwrap(),
        "https://up.example/root/?offset=5&limit=2"
    );
    let only = stream.on_response(200, r#"{"r":[]}"#.into());
    assert!(is_complete(&only));
    assert_eq!(only.chunks.concat(), r#"{"r":[]}"#);
}

#[test]
fn commas_skip_empty_pages() {
    let config = config(by_link(), "/r", ErrorPolicy::Terminate);
    let mut stream = PageStream::new(&config, "/", "keep=1");
    assert_eq!(
        stream.next_request().unwrap(),
        "https://up.example/root/?keep=1"
    );
    let first = stream.on_response(200, r#"{"next":"?p=2","r":[]}"#.into());
    assert_eq!(first.chunks, vec![r#"{"next":"?p=2","r":["#]);
    assert_eq!(
        stream.next_request().unwrap(),
        "https://up.example/root/?p=2"
    );
    let second = stream.on_response(200, r#"{"next":"/abs?p=3","r":[1]}"#.into());
    assert_eq!(second.chunks, vec!["1"]);
    assert_eq!(stream.next_request().unwrap(), "https://up.example/abs?p=3");
    let third = stream.on_response(200, r#"{"next":"https://up.example:443/x","r":[2]}"#.into());
    assert_eq!(third.chunks, vec![",", "2"]);
    assert_eq!(stream.next_request().unwrap(), "https://up.example/x");
    let last = stream.on_response(200, r#"{"next":null,"r":[3]}"#.into());
    assert!(is_complete(&last));
    assert_eq!(last.chunks, vec![",", "3", "]}"]);
}

#[test]
fn a_missing_link_ends_the_stream() {
    let config = config(by_link(), "/r", ErrorPolicy::Terminate);
    let mut stream = PageStream::new(&config, "/", "");
    assert_eq!(stream.next_request().unwrap(), "https://up.example/root/?");
    assert!(is_complete(&stream.on_response(200, r#"{"r":[1]}"#.into())));
}

#[test]
fn foreign_and_malformed_links_are_refused() {
    let config = config(by_link(), "/r", ErrorPolicy::Terminate);
    let mut stream = PageStream::new(&config, "/", "");
    stream.next_request().unwrap();
    let foreign = stream.on_response(200, r#"{"next":"https://evil.example/","r":[1]}"#.into());
    assert_eq!(foreign.chunks.len(), 2);
    assert!(matches!(failure(foreign), ProxyError::ForeignNext(path) if path == "/next"));
    let mut other = PageStream::new(&config, "/", "");
    other.next_request().unwrap();
    let number = other.on_response(200, r#"{"next":7,"r":[1]}"#.into());
    assert!(matches!(failure(number), ProxyError::MissingNext(path) if path == "/next"));
}

#[test]
fn a_refused_link_closes_the_document_under_the_other_policy() {
    let config = config(by_link(), "/r", ErrorPolicy::Complete);
    let mut stream = PageStream::new(&config, "/", "");
    stream.next_request().unwrap();
    let step = stream.on_response(200, r#"{"next":"ftp://up.example/","r":[1]}"#.into());
    assert!(is_complete(&step));
    assert_eq!(
        step.chunks.concat(),
        r#"{"next":"ftp://up.example/","r":[1]}"#
    );
}

#[test]
fn early_failures_send_nothing() {
    let config = config(by_offset(0, 1), "/r", ErrorPolicy::Complete);
    let mut stream = PageStream::new(&config, "/", "");
    stream.next_request().unwrap();
    let status = stream.on_response(500, "boom".into());
    assert!(status.chunks.is_empty());
    assert!(matches!(
        failure(status),
        ProxyError::UpstreamStatus { status: 500, body } if body == "boom"
    ));
    let syntax = stream.on_response(200, "{".into());
    assert!(syntax.chunks.is_empty());
    assert!(matches!(failure(syntax), ProxyError::Json(_)));
    let missing = stream.on_response(200, r#"{"x":[]}"#.into());
    assert!(missing.chunks.is_empty());
    assert!(matches!(failure(missing), ProxyError::MissingArray(path) if path == "/r"));
}

#[test]
fn later_failures_follow_the_policy() {
    for policy in [ErrorPolicy::Terminate, ErrorPolicy::Complete] {
        let config = config(by_offset(0, 1), "/r", policy);
        for (status, body) in [(503, "down"), (200, "no json"), (200, "[]")] {
            let mut stream = PageStream::new(&config, "/", "");
            stream.next_request().unwrap();
            assert!(is_continue(&stream.on_response(200, r#"{"r":[1],"z":0}"#.into())));
            stream.next_request().unwrap();
            let step = stream.on_response(status, body.into());
            if policy == ErrorPolicy::Complete {
                assert!(is_complete(&step));
                assert_eq!(step.chunks, vec![r#"],"z":0}"#]);
                assert!(step.closed_by.is_some());
            } else {
                assert!(step.chunks.is_empty());
                failure(step);
            }
        }
        let mut stream = PageStream::new(&config, "/", "");
        stream.next_request().unwrap();
        assert!(is_continue(&stream.on_response(200, r#"{"r":[1],"z":0}"#.into())));
        let step = stream.on_failure(ProxyError::Upstream("reset".into()));
        assert_eq!(is_complete(&step), policy == ErrorPolicy::Complete);
    }
}

#[test]
fn rejected_credentials_always_end_the_stream() {
    let config = config(by_offset(0, 1), "/r", ErrorPolicy::Complete);
    for status in [401, 403] {
        let mut stream = PageStream::new(&config, "/", "");
        stream.next_request().unwrap();
        assert!(is_continue(&stream.on_response(200, r#"{"r":[1]}"#.into())));
        stream.next_request().unwrap();
        let step = stream.on_response(status, "no".into());
        assert!(step.chunks.is_empty());
        match failure(step) {
            ProxyError::Authentication { status: found } => assert_eq!(found, status),
            other => panic!("{:?}", other),
        }
    }
}

#[test]
fn a_position_beyond_all_numbers_is_an_error() {
    let config = config(by_offset(u64::MAX, 1), "/r", ErrorPolicy::Terminate);
    let mut stream = PageStream::new(&config, "/", "");
    stream.next_request().unwrap();
    let step = stream.on_response(200, r#"{"r":[1]}"#.into());
    assert_eq!(step.chunks, vec![r#"{"r":["#, "1"]);
    assert!(matches!(
        failure(step),
        ProxyError::Config(message) if message == "pagination position is out of range"
    ));
}

#[test]
fn an_unusable_base_url_is_told_on_request() {
    let mut config = config(by_offset(0, 1), "/r", ErrorPolicy::Terminate);
    config.target.base_url = "nowhere".into();
    let mut stream = PageStream::new(&config, "/", "");
    assert!(matches!(stream.next_request(), Err(ProxyError::Config(_))));
}

#[test]
fn takes_parameters_and_documents_directly() {
    let config = config(by_page(3, 2), "/r", ErrorPolicy::Terminate);
    let parameters = vec![
        ("page".to_string(), "9".to_string()),
        ("a".to_string(), "b".to_string()),
    ];
    let mut stream = PageStream::with_pairs(&config, "/x", parameters);
    assert_eq!(
        stream.next_request().unwrap(),
        "https://up.example/root/x?a=b&page=3&size=2"
    );
    let document: Value = serde_json::from_str(r#"{"r":["a"]}"#).unwrap();
    let step = stream.on_document(&document);
    assert!(is_complete(&step));
    assert_eq!(step.chunks, vec![r#"{"r":["#, r#""a""#, "]}"]);
}

#[test]
fn the_policy_alone_handles_errors() {
    let closed = handle_error(
        ErrorPolicy::Complete,
        ProxyError::Upstream("x".into()),
        true,
        "]}",
    );
    assert!(is_complete(&closed));
    assert_eq!(closed.chunks, vec!["]}"]);
    assert!(matches!(&closed.closed_by, Some(ProxyError::Upstream(message)) if message == "x"));
    let early = handle_error(
        ErrorPolicy::Complete,
        ProxyError::Upstream("x".into()),
        false,
        "",
    );
    assert!(matches!(failure(early), ProxyError::Upstream(message) if message == "x"));
    let ended = handle_error(
        ErrorPolicy::Terminate,
        ProxyError::Upstream("x".into()),
        true,
        "]}",
    );
    assert!(matches!(failure(ended), ProxyError::Upstream(_)));
    let rejected = handle_error(
        ErrorPolicy::Complete,
        ProxyError::Authentication { status: 401 },
        true,
        "]}",
    );
    assert!(matches!(
        failure(rejected),
        ProxyError::Authentication { status: 401 }
    ));
}
