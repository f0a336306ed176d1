use pm3::paths::Paths;

#[test]
fn everything_lies_under_the_data_directory() {
    let paths = Paths::with_base("/home/me/.local/share/pm3".to_string());
    assert_eq!(paths.data_dir(), "/home/me/.local/share/pm3");
    assert_eq!(paths.pid_file(), "/home/me/.local/share/pm3/pm3.pid");
    assert_eq!(paths.socket_file(), "/home/me/.local/share/pm3/pm3.sock");
    assert_eq!(paths.log_dir(), "/home/me/.local/share/pm3/logs");
    assert_eq!(paths.stdout_log("web"), "/home/me/.local/share/pm3/logs/web.out");
    assert_eq!(paths.stderr_log("web"), "/home/me/.local/share/pm3/logs/web.err");
}

#[test]
fn the_environment_overrides_the_default() {
    let default = "/home/me/.local/share/pm3".to_string();
    assert_eq!(Paths::resolve(None, default.clone()).data_dir(), default);
    assert_eq!(Paths::resolve(Some("/tmp/x".to_string()), default).data_dir(), "/tmp/x");
}

#[test]
fn paths_are_plain_text() {
    let paths = Paths::with_base("rel dir".to_string());
    assert_eq!(paths.stdout_log("my app"), "rel dir/logs/my app.out");
    assert_eq!(paths.clone(), paths);
}
