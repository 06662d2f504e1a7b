use lmstudio_rust::discovery::{api_host, health_url, responding_hosts, Discovery};
use lmstudio_rust::logger::{LogLevel, Logger};
use lmstudio_rust::LMStudioError;

#[test]
fn test_default_api_host() {
    let host = Discovery::default_api_host();
    assert_eq!(host, "http://localhost:1234");
}

#[test]
fn candidate_hosts_are_tried_host_by_host_then_port_by_port() {
    let hosts = Discovery::candidate_api_hosts();
    assert_eq!(
        hosts,
        vec![
            "http://localhost:1234".to_string(),
            "http://localhost:12345".to_string(),
            "http://127.0.0.1:1234".to_string(),
            "http://127.0.0.1:12345".to_string(),
        ]
    );
}

#[test]
fn api_host_writes_scheme_host_and_port() {
    assert_eq!(api_host("example.org", 80), "http://example.org:80");
    assert_eq!(api_host("h", 0), "http://h:0");
    assert_eq!(api_host("h", 65535), "http://h:65535");
}

#[test]
fn first_available_takes_the_first_answering_instance() {
    let found = Discovery::first_available(vec![
        "http://127.0.0.1:12345".to_string(),
        "http://localhost:1234".to_string(),
    ]);
    assert_eq!(found.unwrap(), "http://127.0.0.1:12345");
}

#[test]
fn first_available_without_instances_is_service_unavailable() {
    match Discovery::first_available(Vec::new()) {
        Err(LMStudioError::ServiceUnavailable(m)) => {
            assert_eq!(m, "No running LM Studio instances found")
        }
        other => panic!("unexpected {:?}", other),
    }
}

#[test]
fn discovery_keeps_its_logger() {
    let logger = Logger::with_prefix(LogLevel::Debug, "[probe]");
    let discovery = Discovery::new(logger);
    assert_eq!(discovery.logger_ref().level(), LogLevel::Debug);
    assert_eq!(discovery.logger_ref().prefix(), "[probe]");
}

#[test]
fn responding_hosts_keep_their_order() {
    let candidates = Discovery::candidate_api_hosts();
    assert_eq!(
        responding_hosts(candidates.clone(), vec![false, true, false, true]),
        vec!["http://localhost:12345".to_string(), "http://127.0.0.1:12345".to_string()]
    );
    assert_eq!(responding_hosts(candidates.clone(), vec![true; 4]), candidates);
    assert!(responding_hosts(candidates, vec![false; 4]).is_empty());
    assert!(responding_hosts(Vec::new(), Vec::new()).is_empty());
}

#[test]
fn health_url_appends_the_health_path() {
    assert_eq!(health_url("http://localhost:1234"), "http://localhost:1234/health");
}
