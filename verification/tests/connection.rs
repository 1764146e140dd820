use dendrite::connection::{
    after_attempt, client_identification, component_name, identification, server_url, ConnectAction, ConnectAttempt,
    CONNECT_RETRY_INTERVAL_SECS,
};
use dendrite::ids::has_identifier_shape;

#[test]
fn url_names_host_and_port() {
    assert_eq!(server_url("proxy", 8124), "http://proxy:8124");
    assert_eq!(server_url("localhost", 0), "http://localhost:0");
    assert_eq!(server_url("10.0.0.1", 7), "http://10.0.0.1:7");
    assert_eq!(server_url("", 10), "http://:10");
    assert_eq!(server_url("h", 1090), "http://h:1090");
    assert_eq!(server_url("h", u32::MAX), "http://h:4294967295");
}

#[test]
fn component_name_carries_the_label() {
    assert_eq!(component_name("API"), "Rust client API");
    assert_eq!(component_name("Command Processor"), "Rust client Command Processor");
    assert_eq!(component_name(""), "Rust client ");
}

#[test]
fn identification_carries_client_and_component() {
    let given = identification("abc".to_string(), "API");
    assert_eq!(given.client_id, "abc");
    assert_eq!(given.component_name, "Rust client API");
    let first = client_identification("API");
    let second = client_identification("API");
    assert!(has_identifier_shape(&first.client_id));
    assert_ne!(first.client_id, second.client_id);
    assert_eq!(first.component_name, "Rust client API");
}

#[test]
fn client_retries_every_second_until_identified() {
    assert_eq!(CONNECT_RETRY_INTERVAL_SECS, 1);
    assert_eq!(after_attempt(ConnectAttempt::Unreachable), ConnectAction::RetryAfter(1));
    assert_eq!(after_attempt(ConnectAttempt::NotIdentified), ConnectAction::RetryAfter(1));
    assert_eq!(after_attempt(ConnectAttempt::Identified), ConnectAction::Proceed);
}
