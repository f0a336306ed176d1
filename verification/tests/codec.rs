use pm3::codec::{
    decode_request, decode_response, encode_request, encode_response, read_frame,
    request_to_words, response_to_words, write_frame,
};
use pm3::config::ProcessConfig;
use pm3::protocol::{
    has_distinct_keys, ProcessInfo, ProcessStatus, ProtocolError, Request, Response,
};

fn chars(text: &str) -> Vec<char> {
    text.chars().collect()
}

fn words(list: &[&str]) -> Vec<String> {
    list.iter().map(|w| w.to_string()).collect()
}

fn full_config() -> ProcessConfig {
    ProcessConfig {
        command: "bash -c 'echo hello; echo world'".to_string(),
        cwd: Some("/srv/my app".to_string()),
        env: Some(vec![
            ("PATH".to_string(), "/bin:/usr/bin".to_string()),
            ("GREETING".to_string(), "hello\nworld \\ again".to_string()),
        ]),
        group: Some("backend".to_string()),
        kill_timeout: Some(2_500),
        extra: vec![
            ("restart".to_string(), "on-failure".to_string()),
            ("max_restarts".to_string(), "15".to_string()),
        ],
    }
}

fn requests() -> Vec<Request> {
    vec![
        Request::List,
        Request::Kill,
        Request::Stop { names: None },
        Request::Stop { names: Some(vec![]) },
        Request::Stop { names: Some(words(&["web", "worker"])) },
        Request::Restart { names: None },
        Request::Restart { names: Some(words(&["a b", "", "-", "+", "3"])) },
        Request::Log { name: None, lines: 0, follow: false },
        Request::Log { name: Some("web".to_string()), lines: 15, follow: true },
        Request::Log { name: Some(String::new()), lines: u64::MAX, follow: false },
        Request::Start { configs: vec![], names: None, env: None },
        Request::Start {
            configs: vec![
                ("web".to_string(), ProcessConfig::new("sleep 999".to_string())),
                ("worker".to_string(), full_config()),
            ],
            names: Some(words(&["worker"])),
            env: Some(vec![("MODE".to_string(), "production".to_string())]),
        },
    ]
}

fn info(name: &str) -> ProcessInfo {
    ProcessInfo {
        name: name.to_string(),
        pid: Some(4242),
        status: ProcessStatus::Online,
        uptime_secs: Some(61),
        restarts: 2,
        group: Some("backend".to_string()),
    }
}

fn responses() -> Vec<Response> {
    vec![
        Response::Success { message: None },
        Response::Success { message: Some("started: web, worker".to_string()) },
        Response::Success { message: Some(String::new()) },
        Response::Error { message: "process not found: ghost".to_string() },
        Response::Error { message: "two\nlines".to_string() },
        Response::ProcessList { processes: vec![] },
        Response::ProcessList {
            processes: vec![
                info("web"),
                ProcessInfo {
                    name: "old one".to_string(),
                    pid: None,
                    status: ProcessStatus::Stopped,
                    uptime_secs: None,
                    restarts: u32::MAX,
                    group: None,
                },
            ],
        },
        Response::ProcessDetail { info: info("web") },
        Response::LogLine { name: None, line: "line8".to_string() },
        Response::LogLine {
            name: Some("web:err".to_string()),
            line: "  indented \\ with\ttab and é".to_string(),
        },
        Response::LogLine { name: Some("web".to_string()), line: String::new() },
    ]
}

#[test]
fn decoding_undoes_encoding_of_requests() {
    for (request, again) in requests().into_iter().zip(requests()) {
        let line = encode_request(&request);
        assert_eq!(decode_request(&line), Ok(request), "line: {line:?}");
        assert_eq!(decode_request(line.trim_end_matches('\n')), Ok(again), "line: {line:?}");
    }
}

#[test]
fn decoding_undoes_encoding_of_responses() {
    for response in responses() {
        let line = encode_response(&response);
        assert_eq!(decode_response(&line), Ok(response), "line: {line:?}");
    }
}

#[test]
fn encoded_lines_hold_one_line_feed_at_the_end() {
    let mut lines: Vec<String> = requests().iter().map(encode_request).collect();
    lines.extend(responses().iter().map(encode_response));
    for line in lines {
        assert!(line.ends_with('\n'), "line: {line:?}");
        assert_eq!(line.matches('\n').count(), 1, "line: {line:?}");
    }
}

#[test]
fn encoding_is_the_same_every_time() {
    for request in requests() {
        assert_eq!(encode_request(&request), encode_request(&request));
    }
}

#[test]
fn requests_are_written_tag_first() {
    assert_eq!(encode_request(&Request::List), "list\n");
    assert_eq!(encode_request(&Request::Kill), "kill\n");
    assert_eq!(encode_request(&Request::Stop { names: None }), "stop names -\n");
    assert_eq!(
        encode_request(&Request::Stop { names: Some(words(&["web", "worker"])) }),
        "stop names + 2 web worker\n"
    );
    assert_eq!(
        encode_request(&Request::Restart { names: Some(words(&["my app"])) }),
        "restart names + 1 my\\sapp\n"
    );
    assert_eq!(
        encode_request(&Request::Log { name: Some("web".to_string()), lines: 15, follow: true }),
        "log name + web lines 15 follow true\n"
    );
    assert_eq!(
        encode_request(&Request::Log { name: None, lines: 0, follow: false }),
        "log name - lines 0 follow false\n"
    );
    assert_eq!(
        encode_request(&Request::Start {
            configs: vec![("web".to_string(), ProcessConfig::new("sleep 999".to_string()))],
            names: None,
            env: None,
        }),
        "start configs 1 name web command sleep\\s999 cwd - env - group - kill_timeout - \
         extra 0 names - env -\n"
    );
    assert_eq!(
        request_to_words(&Request::Start {
            configs: vec![("w".to_string(), full_config())],
            names: Some(words(&["w"])),
            env: Some(vec![("K".to_string(), "V".to_string())]),
        }),
        words(&[
            "start",
            "configs",
            "1",
            "name",
            "w",
            "command",
            "bash -c 'echo hello; echo world'",
            "cwd",
            "+",
            "/srv/my app",
            "env",
            "+",
            "2",
            "PATH",
            "/bin:/usr/bin",
            "GREETING",
            "hello\nworld \\ again",
            "group",
            "+",
            "backend",
            "kill_timeout",
            "+",
            "2500",
            "extra",
            "2",
            "restart",
            "on-failure",
            "max_restarts",
            "15",
            "names",
            "+",
            "1",
            "w",
            "env",
            "+",
            "1",
            "K",
            "V",
        ])
    );
}

#[test]
fn responses_are_written_tag_first() {
    assert_eq!(encode_response(&Response::Success { message: None }), "success message -\n");
    assert_eq!(
        encode_response(&Response::Success { message: Some("started: web".to_string()) }),
        "success message + started:\\sweb\n"
    );
    assert_eq!(
        encode_response(&Response::Error { message: "a\nb\\c".to_string() }),
        "error message a\\nb\\\\c\n"
    );
    assert_eq!(
        encode_response(&Response::ProcessList { processes: vec![] }),
        "process_list processes 0\n"
    );
    assert_eq!(
        encode_response(&Response::ProcessDetail { info: info("web") }),
        "process_detail info name web pid + 4242 status online uptime_secs + 61 restarts 2 \
         group + backend\n"
    );
    assert_eq!(
        encode_response(&Response::ProcessList { processes: vec![info("a"), info("b")] }),
        "process_list processes 2 \
         name a pid + 4242 status online uptime_secs + 61 restarts 2 group + backend \
         name b pid + 4242 status online uptime_secs + 61 restarts 2 group + backend\n"
    );
    assert_eq!(
        encode_response(&Response::LogLine { name: None, line: "line8".to_string() }),
        "log_line name - line line8\n"
    );
    assert_eq!(
        response_to_words(&Response::LogLine { name: Some("w".to_string()), line: String::new() }),
        words(&["log_line", "name", "+", "w", "line", ""])
    );
}

#[test]
fn lines_are_read_as_they_are_written() {
    assert_eq!(decode_request("list\n"), Ok(Request::List));
    assert_eq!(decode_request("kill"), Ok(Request::Kill));
    assert_eq!(
        decode_request("stop names + 2 web worker\n"),
        Ok(Request::Stop { names: Some(words(&["web", "worker"])) })
    );
    assert_eq!(
        decode_request("log name + my\\sapp lines 007 follow false\n"),
        Ok(Request::Log { name: Some("my app".to_string()), lines: 7, follow: false })
    );
    assert_eq!(
        decode_response("success message + stopped:\\sweb\n"),
        Ok(Response::Success { message: Some("stopped: web".to_string()) })
    );
    assert_eq!(
        decode_response("log_line name + web:err line \n"),
        Ok(Response::LogLine { name: Some("web:err".to_string()), line: String::new() })
    );
}

#[test]
fn the_empty_line_is_refused_as_empty() {
    assert_eq!(decode_request(""), Err(ProtocolError::Empty));
    assert_eq!(decode_request("\n"), Err(ProtocolError::Empty));
    assert_eq!(decode_response(""), Err(ProtocolError::Empty));
    assert_eq!(decode_response("\n"), Err(ProtocolError::Empty));
}

#[test]
fn an_unknown_tag_is_refused_as_unknown() {
    assert_eq!(decode_request("reload names -\n"), Err(ProtocolError::UnknownVariant));
    assert_eq!(decode_request("LIST\n"), Err(ProtocolError::UnknownVariant));
    assert_eq!(decode_request(" list\n"), Err(ProtocolError::UnknownVariant));
    assert_eq!(decode_request("success message -\n"), Err(ProtocolError::UnknownVariant));
    assert_eq!(decode_response("list\n"), Err(ProtocolError::UnknownVariant));
    assert_eq!(decode_response("{\"type\":\"success\"}\n"), Err(ProtocolError::UnknownVariant));
}

#[test]
fn a_line_that_is_not_well_formed_is_refused() {
    for line in [
        "stop\n",
        "stop names\n",
        "stop -\n",
        "stop names x\n",
        "stop name -\n",
        "stop names + 2 web\n",
        "stop names + -1\n",
        "stop names + 99999999999999999999999999 a\n",
        "stop names - extra\n",
        "list \n",
        "list extra\n",
        "log name - lines 15\n",
        "log name - lines 15 follow maybe\n",
        "log name - lines x follow true\n",
        "log name - lines 18446744073709551616 follow true\n",
        "log name web lines 15 follow true\n",
        "log lines 15 name - follow true\n",
        "restart names + 1 a\\\n",
        "restart names + 1 a\\x\n",
        "kill\n\n",
        "start configs 1 name web\n",
        "start configs 1 name web command sleep cwd - env - group - kill_timeout - names - env -\n",
        "start configs 2 name web command sleep cwd - env - group - kill_timeout - extra 0 \
         names - env -\n",
        "start configs 0 names - env - extra\n",
    ] {
        assert_eq!(decode_request(line), Err(ProtocolError::Malformed), "line: {line:?}");
    }
    for line in [
        "success\n",
        "success -\n",
        "error\n",
        "error message\n",
        "error message a b\n",
        "process_list processes 1\n",
        "process_detail info name web pid + 4294967296 status online uptime_secs - restarts 0 \
         group -\n",
        "process_detail info name web pid - status asleep uptime_secs - restarts 0 group -\n",
        "process_detail info name web pid - status online uptime_secs - restarts 4294967296 \
         group -\n",
        "log_line name -\n",
        "log_line name - line\n",
    ] {
        assert_eq!(decode_response(line), Err(ProtocolError::Malformed), "line: {line:?}");
    }
}

#[test]
fn protocol_errors_have_their_text() {
    assert_eq!(ProtocolError::Empty.to_string(), "protocol error: empty line");
    assert_eq!(ProtocolError::Malformed.to_string(), "protocol error: malformed line");
    assert_eq!(ProtocolError::UnknownVariant.to_string(), "protocol error: unknown variant");
}

#[test]
fn frames_escape_space_line_feed_and_backslash() {
    assert_eq!(write_frame(&words(&["a b", "c\nd", "e\\f", ""])), chars("a\\sb c\\nd e\\\\f "));
    assert_eq!(write_frame(&words(&["one"])), chars("one"));
    assert_eq!(write_frame(&words(&[""])), chars(""));
    assert_eq!(write_frame(&words(&[])), chars(""));
    assert_eq!(write_frame(&words(&["", ""])), chars(" "));
}

#[test]
fn frames_are_read_back() {
    assert_eq!(
        read_frame(&chars("a\\sb c\\nd e\\\\f ")),
        Some(words(&["a b", "c\nd", "e\\f", ""]))
    );
    assert_eq!(read_frame(&chars("")), Some(words(&[""])));
    assert_eq!(read_frame(&chars("  ")), Some(words(&["", "", ""])));
    assert_eq!(read_frame(&chars("a\\")), None);
    assert_eq!(read_frame(&chars("a\\tb")), None);
    assert_eq!(read_frame(&chars("a\nb")), None);
}

#[test]
fn a_start_with_a_name_twice_is_refused() {
    let config = || ProcessConfig::new("sleep 999".to_string());
    let twice = Request::Start {
        configs: vec![
            ("web".to_string(), config()),
            ("worker".to_string(), config()),
            ("web".to_string(), ProcessConfig::new("sleep 1".to_string())),
        ],
        names: None,
        env: None,
    };
    assert!(!twice.is_well_formed());
    assert_eq!(decode_request(&encode_request(&twice)), Err(ProtocolError::Malformed));

    let once = Request::Start {
        configs: vec![("web".to_string(), config()), ("worker".to_string(), config())],
        names: Some(words(&["web", "web"])),
        env: None,
    };
    assert!(once.is_well_formed());
    assert!(decode_request(&encode_request(&once)).is_ok());
    for request in requests() {
        assert!(request.is_well_formed());
    }
}

#[test]
fn descriptors_are_told_apart_by_name() {
    let config = || ProcessConfig::new("sleep 999".to_string());
    assert!(has_distinct_keys(&vec![]));
    assert!(has_distinct_keys(&vec![("a".to_string(), config())]));
    assert!(has_distinct_keys(&vec![("a".to_string(), config()), ("b".to_string(), config())]));
    assert!(!has_distinct_keys(&vec![("a".to_string(), config()), ("a".to_string(), config())]));
    assert!(!has_distinct_keys(&vec![
        ("a".to_string(), config()),
        ("b".to_string(), config()),
        ("c".to_string(), config()),
        ("b".to_string(), config()),
    ]));
}
