use pm3::config::ProcessConfig;
use pm3::dispatch::{Action, Dispatcher, Event, StopOutcome};
use pm3::paths::Paths;
use pm3::process::SpawnOutcome;
use pm3::protocol::{ProcessInfo, ProcessStatus, Request, Response};

fn manifest(names: &[&str]) -> Vec<(String, ProcessConfig)> {
    names
        .iter()
        .map(|name| (name.to_string(), ProcessConfig::new("sleep 999".to_string())))
        .collect()
}

fn names(list: &[&str]) -> Option<Vec<String>> {
    Some(list.iter().map(|name| name.to_string()).collect())
}

fn start(configs: Vec<(String, ProcessConfig)>, names: Option<Vec<String>>) -> Request {
    Request::Start { configs, names, env: None }
}

/// Carries a request out the way the supervisor does, with every launch and
/// every stop going well. Children get the process ids `first_pid`,
/// `first_pid + 1`, and so on.
fn carry_out(dispatcher: &mut Dispatcher, request: Request, first_pid: u32) -> Response {
    let mut pid = first_pid;
    let mut action = dispatcher.dispatch(request, 0);
    loop {
        let event = match action {
            Action::Launch { .. } => {
                let event = Event::Launch(SpawnOutcome::Spawned { pid: Some(pid), at: 0 });
                pid += 1;
                event
            }
            Action::Stop { .. } => Event::Stop(StopOutcome::Stopped),
            Action::Reply { response, shutdown } => {
                assert!(!shutdown);
                return response;
            }
            other => panic!("unexpected action: {other:?}"),
        };
        assert!(dispatcher.accepts(&event));
        action = dispatcher.step(event);
    }
}

fn list(dispatcher: &mut Dispatcher) -> Vec<ProcessInfo> {
    match carry_out(dispatcher, Request::List, 0) {
        Response::ProcessList { processes } => processes,
        other => panic!("expected ProcessList, got: {other:?}"),
    }
}

fn find<'a>(processes: &'a [ProcessInfo], name: &str) -> &'a ProcessInfo {
    processes
        .iter()
        .find(|p| p.name == name)
        .unwrap_or_else(|| panic!("process '{name}' not found"))
}

fn success(message: &str) -> Response {
    Response::Success { message: Some(message.to_string()) }
}

fn dispatcher() -> Dispatcher {
    Dispatcher::new(Paths::with_base("/data".to_string()))
}

#[test]
fn test_client_sends_request_gets_response() {
    let mut d = dispatcher();
    let response = carry_out(&mut d, Request::List, 0);
    assert!(
        matches!(&response, Response::ProcessList { processes } if processes.is_empty()),
        "expected empty process list, got: {response:?}"
    );
}

#[test]
fn test_daemon_handles_multiple_sequential_connections() {
    let mut d = dispatcher();
    for i in 0..5 {
        let response = carry_out(&mut d, Request::List, 0);
        assert!(
            matches!(&response, Response::ProcessList { processes } if processes.is_empty()),
            "request {i}: expected empty process list, got: {response:?}"
        );
    }
}

#[test]
fn test_spawn_process_tracks_pid() {
    let mut d = dispatcher();
    let start_resp = carry_out(&mut d, start(manifest(&["sleeper"]), None), 4711);
    assert!(
        matches!(&start_resp, Response::Success { .. }),
        "expected Success, got: {start_resp:?}"
    );
    let processes = list(&mut d);
    assert_eq!(processes.len(), 1);
    let info = &processes[0];
    assert_eq!(info.name, "sleeper");
    assert!(info.pid.is_some(), "PID should be present");
    assert_eq!(info.pid, Some(4711));
    assert_eq!(info.status, ProcessStatus::Online);
}

#[test]
fn test_spawn_with_cwd() {
    let mut d = dispatcher();
    let mut config = ProcessConfig::new("sh -c 'pwd > output.txt'".to_string());
    config.cwd = Some("/tmp/workdir".to_string());
    let request = start(vec![("pwd-test".to_string(), config)], None);
    match d.dispatch(request, 0) {
        Action::Launch { name, plan } => {
            assert_eq!(name, "pwd-test");
            assert_eq!(plan.program, "sh");
            assert_eq!(plan.args, vec!["-c", "pwd > output.txt"]);
            assert_eq!(plan.cwd, Some("/tmp/workdir".to_string()));
            assert_eq!(plan.stdout_log, "/data/logs/pwd-test.out");
            assert_eq!(plan.stderr_log, "/data/logs/pwd-test.err");
        }
        other => panic!("expected Launch, got: {other:?}"),
    }
    let start_resp = match d.step(Event::Launch(SpawnOutcome::Spawned { pid: Some(1), at: 0 })) {
        Action::Reply { response, .. } => response,
        other => panic!("expected Reply, got: {other:?}"),
    };
    assert!(
        matches!(&start_resp, Response::Success { .. }),
        "expected Success, got: {start_resp:?}"
    );
}

#[test]
fn test_e2e_start_one_process_running() {
    let mut d = dispatcher();
    assert_eq!(carry_out(&mut d, start(manifest(&["web"]), None), 100), success("started: web"));
    let processes = list(&mut d);
    let web = find(&processes, "web");
    assert_eq!(web.status, ProcessStatus::Online, "web should be online");
    assert_eq!(web.pid, Some(100));
    assert_eq!(web.restarts, 0);
}

#[test]
fn test_e2e_start_two_processes_running() {
    let mut d = dispatcher();
    assert_eq!(
        carry_out(&mut d, start(manifest(&["web", "worker"]), None), 100),
        success("started: web, worker")
    );
    let processes = list(&mut d);
    assert_eq!(processes.len(), 2);
    let web = find(&processes, "web");
    assert_eq!(web.status, ProcessStatus::Online, "web should be online");
    let worker = find(&processes, "worker");
    assert_eq!(worker.status, ProcessStatus::Online, "worker should be online");
}

#[test]
fn test_e2e_start_named_process_only() {
    let mut d = dispatcher();
    assert_eq!(
        carry_out(&mut d, start(manifest(&["web", "worker"]), names(&["web"])), 100),
        success("started: web")
    );
    let processes = list(&mut d);
    assert!(processes.iter().any(|p| p.name == "web"), "web should appear in list");
    assert!(
        !processes.iter().any(|p| p.name == "worker"),
        "worker should NOT appear in list"
    );
}

#[test]
fn test_e2e_start_nonexistent_name_errors() {
    let mut d = dispatcher();
    let response = carry_out(&mut d, start(manifest(&["web"]), names(&["nonexistent"])), 100);
    match response {
        Response::Error { message } => {
            assert!(
                message.contains("not found"),
                "error should contain 'not found', got: {message}"
            );
            assert_eq!(message, "process 'nonexistent' not found in configs");
        }
        other => panic!("expected Error response, got: {other:?}"),
    }
    assert!(list(&mut d).is_empty());
}

#[test]
fn start_with_an_unknown_name_among_known_ones_starts_nothing() {
    let mut d = dispatcher();
    let request = start(manifest(&["web", "worker"]), names(&["web", "ghost", "worker", "imp"]));
    let action = d.dispatch(request, 0);
    assert_eq!(
        action,
        Action::Reply {
            response: Response::Error {
                message: "process 'ghost' not found in configs".to_string()
            },
            shutdown: false,
        }
    );
    assert!(d.table().is_empty());
}

#[test]
fn start_passes_over_what_is_in_the_table() {
    let mut d = dispatcher();
    assert_eq!(carry_out(&mut d, start(manifest(&["web"]), None), 1), success("started: web"));
    assert_eq!(
        carry_out(&mut d, start(manifest(&["web", "worker"]), None), 2),
        success("started: worker")
    );
    assert_eq!(
        carry_out(&mut d, start(manifest(&["web", "worker"]), None), 3),
        success("everything is already running")
    );
    let processes = list(&mut d);
    assert_eq!(processes.len(), 2);
    assert_eq!(find(&processes, "web").pid, Some(1));
    assert_eq!(find(&processes, "worker").pid, Some(2));
}

#[test]
fn start_names_a_process_once_though_asked_twice() {
    let mut d = dispatcher();
    assert_eq!(
        carry_out(&mut d, start(manifest(&["web"]), names(&["web", "web"])), 1),
        success("started: web")
    );
    assert_eq!(list(&mut d).len(), 1);
}

#[test]
fn start_with_nothing_to_start() {
    let mut d = dispatcher();
    assert_eq!(
        carry_out(&mut d, start(Vec::new(), None), 1),
        success("everything is already running")
    );
}

#[test]
fn start_stops_at_the_first_launch_that_fails() {
    let mut d = dispatcher();
    let request = start(manifest(&["a", "b", "c"]), None);
    assert!(matches!(d.dispatch(request, 0), Action::Launch { .. }));
    assert!(matches!(
        d.step(Event::Launch(SpawnOutcome::Spawned { pid: Some(1), at: 5 })),
        Action::Launch { .. }
    ));
    let action = d.step(Event::Launch(SpawnOutcome::Failed {
        reason: "Permission denied (os error 13)".to_string(),
    }));
    assert_eq!(
        action,
        Action::Reply {
            response: Response::Error {
                message:
                    "failed to start 'b': failed to spawn process: Permission denied (os error 13)"
                        .to_string()
            },
            shutdown: false,
        }
    );
    let processes = list(&mut d);
    assert_eq!(processes.len(), 1);
    assert_eq!(processes[0].name, "a");
}

#[test]
fn start_refuses_a_command_that_is_none() {
    let mut d = dispatcher();
    let configs = vec![
        ("good".to_string(), ProcessConfig::new("sleep 1".to_string())),
        ("bad".to_string(), ProcessConfig::new("echo 'open".to_string())),
        ("later".to_string(), ProcessConfig::new("sleep 1".to_string())),
    ];
    assert!(matches!(d.dispatch(start(configs, None), 0), Action::Launch { .. }));
    let action = d.step(Event::Launch(SpawnOutcome::Spawned { pid: Some(1), at: 5 }));
    assert_eq!(
        action,
        Action::Reply {
            response: Response::Error {
                message: "failed to start 'bad': invalid command: failed to parse: missing closing quote"
                    .to_string()
            },
            shutdown: false,
        }
    );
    assert_eq!(d.table().len(), 1);
}

#[test]
fn test_e2e_stop_one_process_others_keep_running() {
    let mut d = dispatcher();
    carry_out(&mut d, start(manifest(&["web", "worker"]), None), 100);
    assert_eq!(
        carry_out(&mut d, Request::Stop { names: names(&["web"]) }, 0),
        success("stopped: web")
    );
    let processes = list(&mut d);
    let web = find(&processes, "web");
    assert_eq!(web.status, ProcessStatus::Stopped, "web should be stopped");
    assert_eq!(web.pid, None);
    let worker = find(&processes, "worker");
    assert_eq!(worker.status, ProcessStatus::Online, "worker should be online");
    assert_eq!(worker.pid, Some(101));
}

#[test]
fn test_e2e_stop_all_processes() {
    let mut d = dispatcher();
    carry_out(&mut d, start(manifest(&["web", "worker"]), None), 100);
    let response = carry_out(&mut d, Request::Stop { names: None }, 0);
    assert_eq!(response, success("stopped: web, worker"));
    let processes = list(&mut d);
    assert!(!processes.is_empty(), "should have processes in list");
    for p in &processes {
        assert_eq!(p.status, ProcessStatus::Stopped, "process '{}' should be stopped", p.name);
    }
}

#[test]
fn test_e2e_stop_nonexistent_prints_error() {
    let mut d = dispatcher();
    carry_out(&mut d, start(manifest(&["web"]), None), 100);
    let response = carry_out(&mut d, Request::Stop { names: names(&["nonexistent"]) }, 0);
    match response {
        Response::Error { message } => {
            assert!(
                message.contains("not found"),
                "error should contain 'not found', got: {message}"
            );
            assert_eq!(message, "process not found: nonexistent");
        }
        other => panic!("expected Error response, got: {other:?}"),
    }
    let processes = list(&mut d);
    assert_eq!(find(&processes, "web").status, ProcessStatus::Online);
    assert_eq!(find(&processes, "web").pid, Some(100));
}

#[test]
fn stop_of_a_ghost_leaves_web_untouched() {
    let mut d = dispatcher();
    carry_out(&mut d, start(manifest(&["web"]), None), 100);
    let before = list(&mut d);
    match carry_out(&mut d, Request::Stop { names: names(&["ghost"]) }, 0) {
        Response::Error { message } => assert!(message.contains("not found")),
        other => panic!("expected Error response, got: {other:?}"),
    }
    assert_eq!(list(&mut d), before);
    assert_eq!(find(&before, "web").status, ProcessStatus::Online);
}

#[test]
fn stop_with_an_unknown_name_stops_nothing() {
    let mut d = dispatcher();
    carry_out(&mut d, start(manifest(&["web"]), None), 100);
    let action = d.dispatch(Request::Stop { names: names(&["web", "ghost"]) }, 0);
    assert_eq!(
        action,
        Action::Reply {
            response: Response::Error { message: "process not found: ghost".to_string() },
            shutdown: false,
        }
    );
    assert_eq!(find(&list(&mut d), "web").status, ProcessStatus::Online);
}

#[test]
fn stop_twice_is_stop_once() {
    let mut d = dispatcher();
    carry_out(&mut d, start(manifest(&["web", "worker"]), None), 100);
    assert_eq!(
        carry_out(&mut d, Request::Stop { names: names(&["web"]) }, 0),
        success("stopped: web")
    );
    let after_first = list(&mut d);
    let action = d.dispatch(Request::Stop { names: names(&["web"]) }, 0);
    assert_eq!(action, Action::Reply { response: success("stopped: "), shutdown: false });
    assert_eq!(list(&mut d), after_first);

    assert_eq!(carry_out(&mut d, Request::Stop { names: None }, 0), success("stopped: worker"));
    assert_eq!(carry_out(&mut d, Request::Stop { names: None }, 0), success("stopped: "));
}

#[test]
fn stop_asks_with_the_pid_and_the_time_to_exit() {
    let mut d = dispatcher();
    let mut slow = ProcessConfig::new("sleep 999".to_string());
    slow.kill_timeout = Some(30_000);
    let configs =
        vec![("web".to_string(), ProcessConfig::new("sleep 999".to_string())), ("db".to_string(), slow)];
    carry_out(&mut d, start(configs, None), 100);
    let action = d.dispatch(Request::Stop { names: None }, 0);
    assert_eq!(
        action,
        Action::Stop { name: "web".to_string(), pid: Some(100), kill_timeout_ms: 10_000 }
    );
    let action = d.step(Event::Stop(StopOutcome::Stopped));
    assert_eq!(
        action,
        Action::Stop { name: "db".to_string(), pid: Some(101), kill_timeout_ms: 30_000 }
    );
    let action = d.step(Event::Stop(StopOutcome::Stopped));
    assert_eq!(action, Action::Reply { response: success("stopped: web, db"), shutdown: false });
}

#[test]
fn stop_that_fails_leaves_the_others_as_they_are() {
    let mut d = dispatcher();
    carry_out(&mut d, start(manifest(&["a", "b", "c"]), None), 100);
    assert!(matches!(d.dispatch(Request::Stop { names: None }, 0), Action::Stop { .. }));
    assert!(matches!(d.step(Event::Stop(StopOutcome::Stopped)), Action::Stop { .. }));
    let action = d.step(Event::Stop(StopOutcome::Failed {
        reason: "Operation not permitted (os error 1)".to_string(),
    }));
    assert_eq!(
        action,
        Action::Reply {
            response: Response::Error {
                message: "failed to stop 'b': Operation not permitted (os error 1)".to_string()
            },
            shutdown: false,
        }
    );
    let processes = list(&mut d);
    assert_eq!(find(&processes, "a").status, ProcessStatus::Stopped);
    assert_eq!(find(&processes, "b").status, ProcessStatus::Online);
    assert_eq!(find(&processes, "c").status, ProcessStatus::Online);
}

#[test]
fn test_e2e_restart_one_process_gets_new_pid() {
    let mut d = dispatcher();
    carry_out(&mut d, start(manifest(&["web", "worker"]), None), 100);
    let processes = list(&mut d);
    let web_pid_before = find(&processes, "web").pid.unwrap();
    let worker_pid_before = find(&processes, "worker").pid.unwrap();

    assert_eq!(
        carry_out(&mut d, Request::Restart { names: names(&["web"]) }, 200),
        success("restarted: web")
    );

    let processes = list(&mut d);
    let web_pid_after = find(&processes, "web").pid.unwrap();
    let worker_pid_after = find(&processes, "worker").pid.unwrap();
    assert_ne!(web_pid_before, web_pid_after, "web PID should change after restart");
    assert_eq!(worker_pid_before, worker_pid_after, "worker PID should not change");
    assert_eq!(find(&processes, "web").status, ProcessStatus::Online, "web should be online");
    assert_eq!(
        find(&processes, "worker").status,
        ProcessStatus::Online,
        "worker should be online"
    );
    assert_eq!(find(&processes, "web").restarts, 1);
    assert_eq!(find(&processes, "worker").restarts, 0);
}

#[test]
fn test_e2e_restart_all_processes_get_new_pids() {
    let mut d = dispatcher();
    carry_out(&mut d, start(manifest(&["web", "worker"]), None), 100);
    let processes = list(&mut d);
    let web_pid_before = find(&processes, "web").pid.unwrap();
    let worker_pid_before = find(&processes, "worker").pid.unwrap();

    let response = carry_out(&mut d, Request::Restart { names: None }, 200);
    assert_eq!(response, success("restarted: web, worker"));

    let processes = list(&mut d);
    assert_ne!(
        web_pid_before,
        find(&processes, "web").pid.unwrap(),
        "web PID should change after restart"
    );
    assert_ne!(
        worker_pid_before,
        find(&processes, "worker").pid.unwrap(),
        "worker PID should change after restart"
    );
    assert_eq!(find(&processes, "web").status, ProcessStatus::Online, "web should be online");
    assert_eq!(
        find(&processes, "worker").status,
        ProcessStatus::Online,
        "worker should be online"
    );
}

#[test]
fn restart_twice_counts_two() {
    let mut d = dispatcher();
    carry_out(&mut d, start(manifest(&["web"]), None), 100);
    let first_pid = find(&list(&mut d), "web").pid;
    assert_eq!(
        carry_out(&mut d, Request::Restart { names: names(&["web"]) }, 200),
        success("restarted: web")
    );
    assert_eq!(
        carry_out(&mut d, Request::Restart { names: names(&["web"]) }, 300),
        success("restarted: web")
    );
    let processes = list(&mut d);
    let web = find(&processes, "web");
    assert_eq!(web.restarts, 2);
    assert_ne!(web.pid, first_pid);
    assert_eq!(web.pid, Some(300));
}

#[test]
fn restart_stops_first_and_launches_the_same_descriptor() {
    let mut d = dispatcher();
    let mut config = ProcessConfig::new("node server.js --port 80".to_string());
    config.cwd = Some("/srv".to_string());
    carry_out(&mut d, start(vec![("web".to_string(), config)], None), 100);
    let action = d.dispatch(Request::Restart { names: None }, 0);
    assert_eq!(
        action,
        Action::Stop { name: "web".to_string(), pid: Some(100), kill_timeout_ms: 10_000 }
    );
    match d.step(Event::Stop(StopOutcome::Stopped)) {
        Action::Launch { name, plan } => {
            assert_eq!(name, "web");
            assert_eq!(plan.program, "node");
            assert_eq!(plan.args, vec!["server.js", "--port", "80"]);
            assert_eq!(plan.cwd, Some("/srv".to_string()));
        }
        other => panic!("expected Launch, got: {other:?}"),
    }
    let event = Event::Launch(SpawnOutcome::Spawned { pid: Some(101), at: 77_000 });
    assert!(d.accepts(&event));
    assert_eq!(
        d.step(event),
        Action::Reply { response: success("restarted: web"), shutdown: false }
    );
    let web = d.table().get(&"web".to_string()).unwrap();
    assert_eq!(web.restarts, 1);
    assert_eq!(web.started_at, 77_000);
    assert_eq!(web.pid, Some(101));
}

#[test]
fn restart_of_a_stopped_process_only_launches() {
    let mut d = dispatcher();
    carry_out(&mut d, start(manifest(&["web"]), None), 100);
    carry_out(&mut d, Request::Stop { names: None }, 0);
    let action = d.dispatch(Request::Restart { names: names(&["web"]) }, 0);
    assert!(matches!(action, Action::Launch { .. }));
    let action = d.step(Event::Launch(SpawnOutcome::Spawned { pid: Some(5), at: 0 }));
    assert_eq!(action, Action::Reply { response: success("restarted: web"), shutdown: false });
    let processes = list(&mut d);
    assert_eq!(find(&processes, "web").status, ProcessStatus::Online);
    assert_eq!(find(&processes, "web").restarts, 1);
}

#[test]
fn restart_that_cannot_launch_leaves_the_process_stopped() {
    let mut d = dispatcher();
    carry_out(&mut d, start(manifest(&["web"]), None), 100);
    assert!(matches!(d.dispatch(Request::Restart { names: None }, 0), Action::Stop { .. }));
    assert!(matches!(d.step(Event::Stop(StopOutcome::Stopped)), Action::Launch { .. }));
    let action = d.step(Event::Launch(SpawnOutcome::Failed { reason: "gone".to_string() }));
    assert_eq!(
        action,
        Action::Reply {
            response: Response::Error {
                message: "failed to restart 'web': failed to spawn process: gone".to_string()
            },
            shutdown: false,
        }
    );
    let processes = list(&mut d);
    assert_eq!(find(&processes, "web").status, ProcessStatus::Stopped);
    assert_eq!(find(&processes, "web").restarts, 0);
}

#[test]
fn restart_with_an_unknown_name_restarts_nothing() {
    let mut d = dispatcher();
    carry_out(&mut d, start(manifest(&["web"]), None), 100);
    let action = d.dispatch(Request::Restart { names: names(&["ghost"]) }, 0);
    assert_eq!(
        action,
        Action::Reply {
            response: Response::Error { message: "process not found: ghost".to_string() },
            shutdown: false,
        }
    );
}

#[test]
fn test_e2e_list_shows_process_details() {
    let mut d = dispatcher();
    carry_out(&mut d, start(manifest(&["web", "worker"]), None), 100);
    let processes = list(&mut d);
    for name in &["web", "worker"] {
        let p = processes
            .iter()
            .find(|p| p.name == *name)
            .unwrap_or_else(|| panic!("{name} should appear in list"));
        assert_eq!(p.status, ProcessStatus::Online, "{name} should be online");
        assert!(p.pid.is_some(), "{name} should have a PID");
    }
}

#[test]
fn test_e2e_list_no_processes_shows_message() {
    let mut d = dispatcher();
    let processes = list(&mut d);
    assert!(processes.is_empty(), "process list should be empty when no processes running");
}

#[test]
fn list_reports_uptime_against_the_clock() {
    let mut d = dispatcher();
    let request = start(manifest(&["web"]), None);
    assert!(matches!(d.dispatch(request, 0), Action::Launch { .. }));
    d.step(Event::Launch(SpawnOutcome::Spawned { pid: Some(9), at: 2_000 }));
    match d.dispatch(Request::List, 65_999) {
        Action::Reply { response: Response::ProcessList { processes }, shutdown: false } => {
            assert_eq!(
                processes,
                vec![ProcessInfo {
                    name: "web".to_string(),
                    pid: Some(9),
                    status: ProcessStatus::Online,
                    uptime_secs: Some(63),
                    restarts: 0,
                    group: None,
                }]
            );
        }
        other => panic!("expected ProcessList, got: {other:?}"),
    }
}

#[test]
fn list_changes_nothing() {
    let mut d = dispatcher();
    carry_out(&mut d, start(manifest(&["web", "worker"]), None), 100);
    carry_out(&mut d, Request::Stop { names: names(&["worker"]) }, 0);
    let first = list(&mut d);
    let second = list(&mut d);
    assert_eq!(first, second);
    assert_eq!(d.table().list(0), first);
}

#[test]
fn test_e2e_kill_stops_processes_and_cleans_up() {
    let mut d = dispatcher();
    carry_out(&mut d, start(manifest(&["web", "worker"]), None), 100);
    let action = d.dispatch(Request::Kill, 0);
    assert_eq!(
        action,
        Action::Reply { response: success("daemon shutting down"), shutdown: true }
    );
    assert_eq!(
        d.drain(),
        Action::Stop { name: "web".to_string(), pid: Some(100), kill_timeout_ms: 10_000 }
    );
    assert_eq!(
        d.step(Event::Stop(StopOutcome::Stopped)),
        Action::Stop { name: "worker".to_string(), pid: Some(101), kill_timeout_ms: 10_000 }
    );
    assert_eq!(d.step(Event::Stop(StopOutcome::Stopped)), Action::Drained);
    for p in d.table().list(0) {
        assert_eq!(p.status, ProcessStatus::Stopped);
    }
}

#[test]
fn drain_goes_on_when_a_child_cannot_be_stopped() {
    let mut d = dispatcher();
    carry_out(&mut d, start(manifest(&["a", "b", "c"]), None), 100);
    carry_out(&mut d, Request::Stop { names: names(&["a"]) }, 0);
    assert_eq!(
        d.drain(),
        Action::Stop { name: "b".to_string(), pid: Some(101), kill_timeout_ms: 10_000 }
    );
    assert_eq!(
        d.step(Event::Stop(StopOutcome::Failed { reason: "no".to_string() })),
        Action::Stop { name: "c".to_string(), pid: Some(102), kill_timeout_ms: 10_000 }
    );
    assert_eq!(d.step(Event::Stop(StopOutcome::Stopped)), Action::Drained);
    let processes = d.table().list(0);
    assert_eq!(find(&processes, "b").status, ProcessStatus::Online);
    assert_eq!(find(&processes, "c").status, ProcessStatus::Stopped);
}

#[test]
fn drain_of_an_empty_table_is_done_at_once() {
    let mut d = dispatcher();
    assert_eq!(d.drain(), Action::Drained);
}

#[test]
fn log_is_not_for_the_dispatcher() {
    let mut d = dispatcher();
    let action = d.dispatch(Request::Log { name: None, lines: 15, follow: false }, 0);
    assert_eq!(
        action,
        Action::Reply {
            response: Response::Error { message: "not implemented".to_string() },
            shutdown: false,
        }
    );
}

#[test]
fn a_report_that_answers_nothing_is_ignored() {
    let mut d = dispatcher();
    assert_eq!(d.step(Event::Stop(StopOutcome::Stopped)), Action::Ignored);
    assert!(matches!(d.dispatch(start(manifest(&["web"]), None), 0), Action::Launch { .. }));
    assert_eq!(d.step(Event::Stop(StopOutcome::Stopped)), Action::Ignored);
    assert!(d.table().is_empty());
    assert_eq!(
        d.step(Event::Launch(SpawnOutcome::Spawned { pid: Some(1), at: 0 })),
        Action::Reply { response: success("started: web"), shutdown: false }
    );
    assert_eq!(
        d.step(Event::Launch(SpawnOutcome::Spawned { pid: Some(2), at: 0 })),
        Action::Ignored
    );
    assert_eq!(d.table().len(), 1);
}

#[test]
fn test_e2e_full_lifecycle() {
    let mut d = dispatcher();

    // 1. Start → 2 processes
    let response = carry_out(&mut d, start(manifest(&["web", "worker"]), None), 100);
    assert_eq!(response, success("started: web, worker"));

    // 2. List → both online, record PIDs
    let processes = list(&mut d);
    let web_pid_before = find(&processes, "web").pid.unwrap();
    let worker_pid_before = find(&processes, "worker").pid.unwrap();
    for p in &processes {
        assert_eq!(p.status, ProcessStatus::Online, "{} should be online", p.name);
    }

    // 3. Restart web → new PID, worker unchanged
    assert_eq!(
        carry_out(&mut d, Request::Restart { names: names(&["web"]) }, 200),
        success("restarted: web")
    );
    let processes = list(&mut d);
    assert_ne!(
        web_pid_before,
        find(&processes, "web").pid.unwrap(),
        "web PID should change after restart"
    );
    assert_eq!(
        worker_pid_before,
        find(&processes, "worker").pid.unwrap(),
        "worker PID should not change after web restart"
    );

    // 4. Stop worker → worker stopped, web still online
    assert_eq!(
        carry_out(&mut d, Request::Stop { names: names(&["worker"]) }, 0),
        success("stopped: worker")
    );
    let processes = list(&mut d);
    assert_eq!(
        find(&processes, "web").status,
        ProcessStatus::Online,
        "web should still be online after stopping worker"
    );
    assert_eq!(
        find(&processes, "worker").status,
        ProcessStatus::Stopped,
        "worker should be stopped"
    );

    // 5. Kill → daemon shuts down
    assert_eq!(
        d.dispatch(Request::Kill, 0),
        Action::Reply { response: success("daemon shutting down"), shutdown: true }
    );

    // 6. A fresh supervisor has no processes
    let mut fresh = dispatcher();
    assert!(list(&mut fresh).is_empty(), "process list should be empty after kill");
}
