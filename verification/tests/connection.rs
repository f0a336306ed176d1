use pm3::codec::encode_request;
use pm3::config::ProcessConfig;
use pm3::connection::{handle_connection, lock_mode, Incoming, LockMode};
use pm3::protocol::{Request, Response};

#[test]
fn an_empty_read_closes_silently() {
    assert_eq!(handle_connection(""), Incoming::Silent);
}

#[test]
fn a_line_that_is_no_request_gets_an_error() {
    let reject = |message: &str| Incoming::Reject {
        frame: Response::Error { message: message.to_string() },
    };
    assert_eq!(handle_connection("\n"), reject("protocol error: empty line"));
    assert_eq!(handle_connection("reload\n"), reject("protocol error: unknown variant"));
    assert_eq!(handle_connection("stop\n"), reject("protocol error: malformed line"));
    assert_eq!(handle_connection("{\"type\":\"list\"}\n"), reject("protocol error: unknown variant"));
}

#[test]
fn a_log_request_goes_to_the_log_stream() {
    let request = Request::Log { name: Some("web".to_string()), lines: 3, follow: false };
    assert_eq!(
        handle_connection(&encode_request(&request)),
        Incoming::Log { name: Some("web".to_string()), lines: 3, follow: false }
    );
    assert_eq!(
        handle_connection("log name - lines 15 follow true"),
        Incoming::Log { name: None, lines: 15, follow: true }
    );
}

#[test]
fn other_requests_go_to_the_dispatcher() {
    let start = Request::Start {
        configs: vec![("web".to_string(), ProcessConfig::new("sleep 999".to_string()))],
        names: None,
        env: None,
    };
    for (request, lock) in [
        (start, LockMode::Exclusive),
        (Request::Stop { names: None }, LockMode::Exclusive),
        (Request::Restart { names: Some(vec!["web".to_string()]) }, LockMode::Exclusive),
        (Request::List, LockMode::Shared),
        (Request::Kill, LockMode::Unlocked),
    ] {
        assert_eq!(lock_mode(&request), lock);
        assert_eq!(
            handle_connection(&encode_request(&request)),
            Incoming::Command { request, lock }
        );
    }
    assert_eq!(
        lock_mode(&Request::Log { name: None, lines: 0, follow: true }),
        LockMode::Shared
    );
}
