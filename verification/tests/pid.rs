use pm3::pid::{guard_pid, is_daemon_running, parse_pid, pid_file_content, MAX_PID};

#[test]
fn the_pid_file_holds_digits_and_a_line_feed() {
    assert_eq!(pid_file_content(1), "1\n");
    assert_eq!(pid_file_content(4711), "4711\n");
    assert_eq!(pid_file_content(2147483647), "2147483647\n");
    assert_eq!(pid_file_content(0), "0\n");
}

#[test]
fn a_pid_is_read_with_or_without_the_line_feed() {
    assert_eq!(parse_pid("4711\n"), Some(4711));
    assert_eq!(parse_pid("4711"), Some(4711));
    assert_eq!(parse_pid("1\n"), Some(1));
    assert_eq!(parse_pid("0042\n"), Some(42));
    assert_eq!(parse_pid("2147483647\n"), Some(MAX_PID));
}

#[test]
fn what_is_no_pid_is_not_read() {
    for content in
        ["", "\n", "0\n", "2147483648\n", "99999999999999999999999\n", "-1\n", "+1\n", " 1\n",
         "1 \n", "1\n\n", "1\r\n", "12a\n", "pid\n"]
    {
        assert_eq!(parse_pid(content), None, "content: {content:?}");
    }
}

#[test]
fn what_is_written_is_read() {
    for pid in [1, 9, 10, 99, 100, 4711, 65535, 65536, 1_000_000, MAX_PID] {
        assert_eq!(parse_pid(&pid_file_content(pid)), Some(pid));
    }
}

#[test]
fn the_guard_is_the_process_the_file_names() {
    assert_eq!(guard_pid(&None), None);
    assert_eq!(guard_pid(&Some("4711\n".to_string())), Some(4711));
    assert_eq!(guard_pid(&Some("rubbish".to_string())), None);
}

#[test]
fn a_daemon_runs_when_its_file_names_a_process_that_is_alive() {
    assert!(is_daemon_running(&Some("4711\n".to_string()), true));
    assert!(!is_daemon_running(&Some("4711\n".to_string()), false));
    assert!(!is_daemon_running(&Some("rubbish".to_string()), true));
    assert!(!is_daemon_running(&None, true));
    assert!(!is_daemon_running(&None, false));
}
