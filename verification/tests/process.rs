use pm3::config::ProcessConfig;
use pm3::paths::Paths;
use pm3::process::{
    command_from_words, launch_plan, parse_command, spawn_process, LaunchPlan, ManagedProcess,
    ProcessError, SpawnOutcome,
};
use pm3::protocol::ProcessStatus;

#[test]
fn test_parse_simple_command() {
    let (prog, args) = parse_command("node server.js").unwrap();
    assert_eq!(prog, "node");
    assert_eq!(args, vec!["server.js"]);
}

#[test]
fn test_parse_command_no_args() {
    let (prog, args) = parse_command("sleep").unwrap();
    assert_eq!(prog, "sleep");
    assert!(args.is_empty());
}

#[test]
fn test_parse_command_multiple_args() {
    let (prog, args) = parse_command("echo hello world").unwrap();
    assert_eq!(prog, "echo");
    assert_eq!(args, vec!["hello", "world"]);
}

#[test]
fn test_parse_command_quoted_args() {
    let (prog, args) = parse_command(r#"bash -c "echo hello""#).unwrap();
    assert_eq!(prog, "bash");
    assert_eq!(args, vec!["-c", "echo hello"]);
}

#[test]
fn test_parse_command_single_quotes() {
    let (prog, args) = parse_command("echo 'hello world'").unwrap();
    assert_eq!(prog, "echo");
    assert_eq!(args, vec!["hello world"]);
}

#[test]
fn test_parse_empty_command() {
    let result = parse_command("");
    assert!(result.is_err());
    assert!(matches!(result.unwrap_err(), ProcessError::InvalidCommand(_)));
}

#[test]
fn test_parse_whitespace_only() {
    let result = parse_command("   ");
    assert!(result.is_err());
    assert!(matches!(result.unwrap_err(), ProcessError::InvalidCommand(_)));
}

#[test]
fn parse_backslash_escapes() {
    let (prog, args) = parse_command(r"printf a\ b \\").unwrap();
    assert_eq!(prog, "printf");
    assert_eq!(args, vec!["a b", "\\"]);
}

#[test]
fn parse_empty_command_says_so() {
    assert_eq!(
        parse_command("").unwrap_err(),
        ProcessError::InvalidCommand("command is empty".to_string())
    );
    assert_eq!(
        parse_command("# only a comment").unwrap_err(),
        ProcessError::InvalidCommand("command is empty".to_string())
    );
}

#[test]
fn parse_open_quote_is_invalid() {
    assert_eq!(
        parse_command("echo 'oops").unwrap_err(),
        ProcessError::InvalidCommand("failed to parse: missing closing quote".to_string())
    );
    assert_eq!(
        parse_command("echo \"oops").unwrap_err(),
        ProcessError::InvalidCommand("failed to parse: missing closing quote".to_string())
    );
}

#[test]
fn command_from_words_takes_the_first_as_program() {
    let words = vec!["a".to_string(), "b".to_string(), "c".to_string()];
    assert_eq!(
        command_from_words(words),
        Ok(("a".to_string(), vec!["b".to_string(), "c".to_string()]))
    );
    assert_eq!(
        command_from_words(Vec::new()),
        Err(ProcessError::InvalidCommand("command is empty".to_string()))
    );
}

#[test]
fn errors_have_their_text() {
    assert_eq!(
        ProcessError::InvalidCommand("command is empty".to_string()).to_string(),
        "invalid command: command is empty"
    );
    assert_eq!(
        ProcessError::SpawnFailed("No such file or directory (os error 2)".to_string())
            .to_string(),
        "failed to spawn process: No such file or directory (os error 2)"
    );
    assert_eq!(
        ProcessError::NotFound("web".to_string()).to_string(),
        "process not found: web"
    );
}

#[test]
fn launch_plan_holds_program_logs_and_settings() {
    let paths = Paths::with_base("/data".to_string());
    let mut config = ProcessConfig::new("sh -c 'pwd > output.txt'".to_string());
    config.cwd = Some("/work".to_string());
    config.env = Some(vec![("PORT".to_string(), "80".to_string())]);
    let plan = launch_plan("pwd-test", &config, &paths).unwrap();
    assert_eq!(
        plan,
        LaunchPlan {
            program: "sh".to_string(),
            args: vec!["-c".to_string(), "pwd > output.txt".to_string()],
            cwd: Some("/work".to_string()),
            env: vec![("PORT".to_string(), "80".to_string())],
            stdout_log: "/data/logs/pwd-test.out".to_string(),
            stderr_log: "/data/logs/pwd-test.err".to_string(),
        }
    );
}

#[test]
fn launch_plan_without_settings() {
    let paths = Paths::with_base("/d".to_string());
    let plan = launch_plan("web", &ProcessConfig::new("sleep 999".to_string()), &paths).unwrap();
    assert_eq!(plan.program, "sleep");
    assert_eq!(plan.args, vec!["999"]);
    assert_eq!(plan.cwd, None);
    assert!(plan.env.is_empty());
}

#[test]
fn launch_plan_refuses_what_is_no_command() {
    let paths = Paths::with_base("/d".to_string());
    assert_eq!(
        launch_plan("web", &ProcessConfig::new("  ".to_string()), &paths),
        Err(ProcessError::InvalidCommand("command is empty".to_string()))
    );
    assert_eq!(
        launch_plan("web", &ProcessConfig::new("'".to_string()), &paths),
        Err(ProcessError::InvalidCommand(
            "failed to parse: missing closing quote".to_string()
        ))
    );
}

#[test]
fn spawn_process_records_a_fresh_child() {
    let config = ProcessConfig::new("sleep 999".to_string());
    let record = spawn_process(
        "sleeper".to_string(),
        config.clone(),
        SpawnOutcome::Spawned { pid: Some(4242), at: 1_000 },
    )
    .unwrap();
    assert_eq!(
        record,
        ManagedProcess {
            name: "sleeper".to_string(),
            config,
            pid: Some(4242),
            status: ProcessStatus::Online,
            started_at: 1_000,
            restarts: 0,
        }
    );
}

#[test]
fn spawn_process_reports_a_refused_launch() {
    let result = spawn_process(
        "web".to_string(),
        ProcessConfig::new("nope".to_string()),
        SpawnOutcome::Failed { reason: "No such file or directory (os error 2)".to_string() },
    );
    assert_eq!(
        result,
        Err(ProcessError::SpawnFailed("No such file or directory (os error 2)".to_string()))
    );
}

#[test]
fn spawn_process_refuses_what_is_no_command() {
    for (command, reason) in [
        ("", "command is empty"),
        ("   ", "command is empty"),
        ("echo 'open", "failed to parse: missing closing quote"),
        ("echo \"open", "failed to parse: missing closing quote"),
    ] {
        for outcome in [
            SpawnOutcome::Spawned { pid: Some(1), at: 0 },
            SpawnOutcome::Failed { reason: "refused".to_string() },
        ] {
            assert_eq!(
                spawn_process("web".to_string(), ProcessConfig::new(command.to_string()), outcome),
                Err(ProcessError::InvalidCommand(reason.to_string())),
                "command: {command:?}"
            );
        }
    }
}

#[test]
fn process_info_shows_uptime_in_whole_seconds() {
    let mut config = ProcessConfig::new("sleep 999".to_string());
    config.group = Some("backend".to_string());
    let record = ManagedProcess {
        name: "web".to_string(),
        config,
        pid: Some(7),
        status: ProcessStatus::Online,
        started_at: 1_500,
        restarts: 3,
    };
    let info = record.to_process_info(5_499);
    assert_eq!(info.name, "web");
    assert_eq!(info.pid, Some(7));
    assert_eq!(info.status, ProcessStatus::Online);
    assert_eq!(info.uptime_secs, Some(3));
    assert_eq!(info.restarts, 3);
    assert_eq!(info.group, Some("backend".to_string()));
    assert_eq!(record.to_process_info(5_500).uptime_secs, Some(4));
    assert_eq!(record.to_process_info(1_500).uptime_secs, Some(0));
    assert_eq!(record.to_process_info(1_000).uptime_secs, Some(0));
}

#[test]
fn config_defaults_to_ten_seconds_before_the_kill() {
    let mut config = ProcessConfig::new("sleep 1".to_string());
    assert_eq!(config.kill_timeout_ms(), 10_000);
    config.kill_timeout = Some(250);
    assert_eq!(config.kill_timeout_ms(), 250);
    assert_eq!(config.clone(), config);
}
