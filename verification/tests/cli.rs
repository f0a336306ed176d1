use pm3::cli::{command_to_request, exit_code, print_response, Command, Output};
use pm3::config::ProcessConfig;
use pm3::protocol::{ProcessInfo, ProcessStatus, Request, Response};

fn names(list: &[&str]) -> Vec<String> {
    list.iter().map(|name| name.to_string()).collect()
}

fn out(text: &str) -> Output {
    Output::Stdout(text.to_string())
}

fn info(name: &str, pid: Option<u32>, status: ProcessStatus) -> ProcessInfo {
    ProcessInfo { name: name.to_string(), pid, status, uptime_secs: Some(1), restarts: 0, group: None }
}

#[test]
fn no_names_stand_for_all() {
    assert_eq!(Command::optional_names(Vec::new()), None);
    assert_eq!(Command::optional_names(names(&["web"])), Some(names(&["web"])));
    assert_eq!(Command::optional_names(names(&["a", "b"])), Some(names(&["a", "b"])));
}

fn manifest() -> Vec<(String, ProcessConfig)> {
    let mut worker = ProcessConfig::new("node worker.js".to_string());
    worker.cwd = Some("/srv".to_string());
    vec![
        ("web".to_string(), ProcessConfig::new("sleep 999".to_string())),
        ("worker".to_string(), worker),
    ]
}

#[test]
fn a_start_carries_the_descriptors_of_the_manifest() {
    assert_eq!(
        command_to_request(Command::Start { names: Vec::new(), env: None }, manifest()),
        Request::Start { configs: manifest(), names: None, env: None }
    );
    let env = Some(vec![("MODE".to_string(), "test".to_string())]);
    assert_eq!(
        command_to_request(Command::Start { names: names(&["web"]), env: env.clone() }, manifest()),
        Request::Start { configs: manifest(), names: Some(names(&["web"])), env }
    );
    assert_eq!(
        command_to_request(Command::Start { names: Vec::new(), env: None }, Vec::new()),
        Request::Start { configs: Vec::new(), names: None, env: None }
    );
}

#[test]
fn commands_become_requests() {
    assert_eq!(
        command_to_request(Command::Stop { names: names(&["web", "worker"]) }, manifest()),
        Request::Stop { names: Some(names(&["web", "worker"])) }
    );
    assert_eq!(
        command_to_request(Command::Stop { names: Vec::new() }, Vec::new()),
        Request::Stop { names: None }
    );
    assert_eq!(
        command_to_request(Command::Restart { names: Vec::new() }, manifest()),
        Request::Restart { names: None }
    );
    assert_eq!(command_to_request(Command::List, manifest()), Request::List);
    assert_eq!(command_to_request(Command::Kill, Vec::new()), Request::Kill);
    assert_eq!(
        command_to_request(
            Command::Log { name: Some("web".to_string()), lines: 3, follow: true },
            manifest()
        ),
        Request::Log { name: Some("web".to_string()), lines: 3, follow: true }
    );
}

#[test]
fn a_success_shows_its_message_or_ok() {
    assert_eq!(
        print_response(&Response::Success { message: Some("started: web".to_string()) }),
        vec![out("started: web")]
    );
    assert_eq!(print_response(&Response::Success { message: None }), vec![out("ok")]);
}

#[test]
fn an_error_goes_to_standard_error() {
    assert_eq!(
        print_response(&Response::Error { message: "process not found: ghost".to_string() }),
        vec![Output::Stderr("error: process not found: ghost".to_string())]
    );
}

#[test]
fn a_list_shows_one_row_for_each_process() {
    assert_eq!(
        print_response(&Response::ProcessList { processes: vec![] }),
        vec![out("no processes running")]
    );
    assert_eq!(
        print_response(&Response::ProcessList {
            processes: vec![
                info("web", Some(4711), ProcessStatus::Online),
                info("worker", None, ProcessStatus::Stopped),
            ],
        }),
        vec![out("web\t4711\tOnline"), out("worker\t\tStopped")]
    );
}

#[test]
fn a_detail_shows_status_and_pid() {
    assert_eq!(
        print_response(&Response::ProcessDetail { info: info("web", Some(7), ProcessStatus::Online) }),
        vec![out("web: Online"), out("  pid: 7")]
    );
    assert_eq!(
        print_response(&Response::ProcessDetail { info: info("web", None, ProcessStatus::Stopped) }),
        vec![out("web: Stopped")]
    );
}

#[test]
fn a_line_of_output_shows_whose_it_is() {
    assert_eq!(
        print_response(&Response::LogLine { name: Some("web".to_string()), line: "web-output".to_string() }),
        vec![out("[web] web-output")]
    );
    assert_eq!(
        print_response(&Response::LogLine { name: None, line: "line8".to_string() }),
        vec![out("line8")]
    );
}

#[test]
fn only_an_error_fails_the_client() {
    assert_eq!(exit_code(&Response::Error { message: "x".to_string() }), 1);
    assert_eq!(exit_code(&Response::Success { message: None }), 0);
    assert_eq!(exit_code(&Response::ProcessList { processes: vec![] }), 0);
    assert_eq!(exit_code(&Response::LogLine { name: None, line: "l".to_string() }), 0);
}
