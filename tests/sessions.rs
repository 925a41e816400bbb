use profiler::request::{Scheme, Target};
use profiler::session::{FailureKind, FailureRecord, FatalError, NotReachableError, Outcome, Profiler, Step};
use profiler::transport::{next_connect_step, ConnectStep, ConnectorConfig};

fn target(scheme: Scheme) -> Target {
    Target { scheme, host: String::from("example.com"), path_and_query: String::from("/") }
}

fn response(raw: &[u8]) -> Outcome {
    Outcome::Response { raw: raw.to_vec(), elapsed: 1000 }
}

#[test]
fn three_not_found_responses() {
    let mut p = Profiler::new(target(Scheme::Http), 3);
    while p.next_step() != Step::Finished {
        assert_eq!(p.next_step(), Step::OpenPlain);
        p.record(response(b"HTTP/1.1 404 Not Found\r\n\r\n"));
    }
    assert_eq!(p.successful_responses.len(), 3);
    let r = p.report();
    assert_eq!(r.total_requests, 3);
    assert_eq!(r.success_percent, Some(100));
    assert_eq!(r.non_200_percent, Some(100));
    assert_eq!(r.non_200_codes, vec![404]);
    assert_eq!(p.exit_code(), 0);
}

#[test]
fn unreachable_host_ends_session_empty() {
    let mut p = Profiler::new(target(Scheme::Https), 5);
    assert_eq!(p.next_step(), Step::OpenTls);
    p.record(Outcome::Fatal(FatalError::NotReachable(NotReachableError)));
    assert!(p.is_finished());
    assert_eq!(p.next_step(), Step::Finished);
    assert!(p.successful_responses.is_empty());
    assert!(p.failed_responses.is_empty());
    assert_ne!(p.exit_code(), 0);
}

#[test]
fn malformed_response_is_recorded_as_failure() {
    let mut p = Profiler::new(target(Scheme::Http), 2);
    p.record(response(b"SSH-2.0-OpenSSH\r\n"));
    assert!(p.successful_responses.is_empty());
    assert_eq!(p.failed_responses.len(), 1);
    assert_eq!(p.failed_responses[0].kind, FailureKind::ParseFailure);
    assert!(!p.is_finished());
}

#[test]
fn empty_response_counts_as_success() {
    let mut p = Profiler::new(target(Scheme::Http), 1);
    p.record(response(b""));
    assert_eq!(p.successful_responses.len(), 1);
    assert_eq!(p.successful_responses[0].status_code, 0);
    assert_eq!(p.successful_responses[0].document, "");
    assert!(p.failed_responses.is_empty());
    assert!(p.is_finished());
}

#[test]
fn failures_and_successes_keep_order() {
    let mut p = Profiler::new(target(Scheme::Http), 4);
    p.record(Outcome::Failed(FailureRecord { kind: FailureKind::ConnectTimeout, description: String::from("a") }));
    p.record(response(b"HTTP/1.1 200 OK\r\n\r\none"));
    p.record(Outcome::Failed(FailureRecord { kind: FailureKind::IoFailure, description: String::from("b") }));
    p.record(response(b"HTTP/1.1 500 Oops\r\n\r\ntwo"));
    assert!(p.is_finished());
    assert_eq!(p.failed_responses[0].description, "a");
    assert_eq!(p.failed_responses[1].kind, FailureKind::IoFailure);
    assert_eq!(p.successful_responses[0].document, "one");
    assert_eq!(p.successful_responses[1].status_code, 500);
    let r = p.report();
    assert_eq!(r.total_requests, 4);
    assert_eq!(r.success_percent, Some(50));
    assert_eq!(r.non_200_percent, Some(50));
}

#[test]
fn request_is_formatted_once_for_the_session() {
    let p = Profiler::with_user_agent(target(Scheme::Http), 1, "probe");
    assert_eq!(
        p.formatted_request,
        "GET / HTTP/1.1\r\nHost: example.com\r\nUser-Agent: probe\r\nAccept: */*\r\nConnection: close\r\n\r\n"
    );
}

#[test]
fn addresses_are_tried_in_order_then_unreachable() {
    assert_eq!(next_connect_step(0, 2), ConnectStep::TryAddress(0));
    assert_eq!(next_connect_step(1, 2), ConnectStep::TryAddress(1));
    assert_eq!(next_connect_step(2, 2), ConnectStep::Unreachable);
    assert_eq!(next_connect_step(0, 0), ConnectStep::Unreachable);
}

#[test]
fn standard_timeouts() {
    let c = ConnectorConfig::standard();
    assert_eq!((c.connect_timeout_secs, c.read_timeout_secs, c.write_timeout_secs), (5, 3, 3));
}

#[test]
fn not_reachable_message() {
    assert_eq!(NotReachableError.description(), "Could not connect to URL: no host was reachable");
}
