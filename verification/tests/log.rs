use pm3::config::ProcessConfig;
use pm3::dispatch::{Action, Dispatcher, Event};
use pm3::lines::{last_lines, split_lines};
use pm3::log::{frames_of_lines, handle_log, LogAction, LogEvent, LogStep, LogStream};
use pm3::paths::Paths;
use pm3::process::SpawnOutcome;
use pm3::protocol::{Request, Response};
use pm3::table::ProcessTable;

fn paths() -> Paths {
    Paths::with_base("/data".to_string())
}

/// A table that holds the processes `names`.
fn table_with(names: &[&str]) -> Dispatcher {
    let mut d = Dispatcher::new(paths());
    let configs = names
        .iter()
        .map(|name| (name.to_string(), ProcessConfig::new("sleep 999".to_string())))
        .collect();
    let mut action = d.dispatch(Request::Start { configs, names: None, env: None }, 0);
    while let Action::Launch { .. } = action {
        action = d.step(Event::Launch(SpawnOutcome::Spawned { pid: Some(1), at: 0 }));
    }
    d
}

fn line(name: Option<&str>, text: &str) -> Response {
    Response::LogLine { name: name.map(|n| n.to_string()), line: text.to_string() }
}

fn end() -> Response {
    Response::Success { message: None }
}

fn read(path: &str) -> LogAction {
    LogAction::Read { path: path.to_string(), from: 0 }
}

fn content(text: &str) -> LogEvent {
    LogEvent::Content(Some(text.to_string()))
}

fn step(stream: &mut LogStream, event: LogEvent) -> LogStep {
    assert!(stream.accepts(&event));
    stream.step(event)
}

#[test]
fn split_lines_at_line_feeds() {
    assert_eq!(split_lines("a\nb\nc\n"), vec!["a", "b", "c"]);
    assert_eq!(split_lines("a\nb\nc"), vec!["a", "b", "c"]);
    assert_eq!(split_lines(""), Vec::<String>::new());
    assert_eq!(split_lines("\n"), vec![""]);
    assert_eq!(split_lines("\n\nx"), vec!["", "", "x"]);
    assert_eq!(split_lines("no line feed"), vec!["no line feed"]);
}

#[test]
fn split_lines_drops_the_carriage_return_before_a_line_feed() {
    assert_eq!(split_lines("a\r\nb\r\n"), vec!["a", "b"]);
    assert_eq!(split_lines("a\r\r\n"), vec!["a\r"]);
    assert_eq!(split_lines("\r\n"), vec![""]);
    assert_eq!(split_lines("a\rb\n"), vec!["a\rb"]);
    assert_eq!(split_lines("tail\r"), vec!["tail\r"]);
}

#[test]
fn last_lines_takes_from_the_end() {
    let text = "line1\nline2\nline3\nline4\nline5\nline6\nline7\nline8\nline9\nline10\n";
    assert_eq!(last_lines(text, 3), vec!["line8", "line9", "line10"]);
    assert_eq!(last_lines(text, 1), vec!["line10"]);
    assert_eq!(last_lines(text, 0), Vec::<String>::new());
    assert_eq!(last_lines(text, 10).len(), 10);
    assert_eq!(last_lines(text, 11).len(), 10);
    assert_eq!(last_lines(text, u64::MAX).len(), 10);
    assert_eq!(last_lines("", 5), Vec::<String>::new());
}

#[test]
fn frames_carry_the_label() {
    let lines = vec!["a".to_string(), "b".to_string()];
    assert_eq!(
        frames_of_lines(&Some("web".to_string()), &lines),
        vec![line(Some("web"), "a"), line(Some("web"), "b")]
    );
    assert_eq!(frames_of_lines(&None, &lines), vec![line(None, "a"), line(None, "b")]);
    assert_eq!(frames_of_lines(&None, &Vec::new()), Vec::<Response>::new());
}

#[test]
fn test_e2e_log_lines_option() {
    let table = ProcessTable::new();
    let (mut stream, first) = handle_log(Some("web".to_string()), 3, false, &table, &paths());
    assert_eq!(first, LogStep { frames: vec![], next: read("/data/logs/web.out") });
    let text = "line1\nline2\nline3\nline4\nline5\nline6\nline7\nline8\nline9\nline10\n";
    let out = step(&mut stream, content(text));
    assert_eq!(out.frames.len(), 3, "should have exactly 3 lines, got: {:?}", out.frames);
    assert_eq!(out.frames[0], line(None, "line8"));
    assert_eq!(out.frames[1], line(None, "line9"));
    assert_eq!(out.frames[2], line(None, "line10"));
    assert_eq!(out.next, read("/data/logs/web.err"));
    let err = step(&mut stream, LogEvent::Content(None));
    assert_eq!(err, LogStep { frames: vec![end()], next: LogAction::Close });
}

#[test]
fn test_e2e_log_shows_process_output() {
    let d = table_with(&["web"]);
    let (mut stream, first) = handle_log(Some("web".to_string()), 15, false, d.table(), &paths());
    assert_eq!(first.next, read("/data/logs/web.out"));
    let out = step(&mut stream, content("hello\nworld\n"));
    assert_eq!(out.frames, vec![line(None, "hello"), line(None, "world")]);
    let err = step(&mut stream, content(""));
    assert_eq!(err, LogStep { frames: vec![end()], next: LogAction::Close });
}

#[test]
fn test_e2e_log_no_name_interleaved() {
    let d = table_with(&["web", "worker"]);
    let (mut stream, first) = handle_log(None, 15, false, d.table(), &paths());
    assert_eq!(first, LogStep { frames: vec![], next: read("/data/logs/web.out") });
    let step1 = step(&mut stream, content("web-output\n"));
    assert_eq!(
        step1,
        LogStep { frames: vec![line(Some("web"), "web-output")], next: read("/data/logs/web.err") }
    );
    let step2 = step(&mut stream, content("web-warning\n"));
    assert_eq!(
        step2,
        LogStep {
            frames: vec![line(Some("web:err"), "web-warning")],
            next: read("/data/logs/worker.out"),
        }
    );
    let step3 = step(&mut stream, content("worker-output\n"));
    assert_eq!(
        step3,
        LogStep {
            frames: vec![line(Some("worker"), "worker-output")],
            next: read("/data/logs/worker.err"),
        }
    );
    let step4 = step(&mut stream, LogEvent::Content(None));
    assert_eq!(step4, LogStep { frames: vec![end()], next: LogAction::Close });
}

#[test]
fn log_of_one_process_unnamed_still_carries_its_name() {
    let d = table_with(&["web"]);
    let (mut stream, _) = handle_log(None, 15, false, d.table(), &paths());
    let out = step(&mut stream, content("x\n"));
    assert_eq!(out.frames, vec![line(Some("web"), "x")]);
}

#[test]
fn log_with_zero_lines_sends_only_the_end() {
    let d = table_with(&["web", "worker"]);
    let (mut stream, first) = handle_log(None, 0, false, d.table(), &paths());
    let mut frames = first.frames;
    let mut next = first.next;
    let mut reads = 0;
    while let LogAction::Read { .. } = next {
        reads += 1;
        let out = step(&mut stream, content("some\noutput\n"));
        frames.extend(out.frames);
        next = out.next;
    }
    assert_eq!(reads, 4);
    assert_eq!(next, LogAction::Close);
    assert_eq!(frames, vec![end()]);
}

#[test]
fn log_of_nothing_is_the_end_frame_alone() {
    let table = ProcessTable::new();
    for follow in [false, true] {
        for lines in [0, 15] {
            let (mut stream, first) = handle_log(None, lines, follow, &table, &paths());
            assert_eq!(first, LogStep { frames: vec![end()], next: LogAction::Close });
            assert_eq!(
                step(&mut stream, LogEvent::Done),
                LogStep { frames: vec![], next: LogAction::Ignored }
            );
        }
    }
}

#[test]
fn log_of_a_process_that_is_not_managed_reads_its_files() {
    let table = ProcessTable::new();
    let (mut stream, first) = handle_log(Some("old".to_string()), 2, false, &table, &paths());
    assert_eq!(first.next, read("/data/logs/old.out"));
    let out = step(&mut stream, content("a\nb\nc\n"));
    assert_eq!(out.frames, vec![line(None, "b"), line(None, "c")]);
}

#[test]
fn test_e2e_log_follow_streams_new_lines() {
    let d = table_with(&["web"]);
    let (mut stream, first) = handle_log(Some("web".to_string()), 15, true, d.table(), &paths());
    assert_eq!(
        first,
        LogStep { frames: vec![], next: LogAction::Stat { path: "/data/logs/web.out".to_string() } }
    );
    // The files hold 12 and 0 bytes when the request comes.
    let s = step(&mut stream, LogEvent::Length(Some(12)));
    assert_eq!(s.next, LogAction::Stat { path: "/data/logs/web.err".to_string() });
    let s = step(&mut stream, LogEvent::Length(None));
    assert_eq!(s.next, LogAction::Stat { path: "/data/logs/web.out".to_string() });
    // First poll: nothing new in either file.
    let s = step(&mut stream, LogEvent::Length(Some(12)));
    assert_eq!(
        s,
        LogStep { frames: vec![], next: LogAction::Stat { path: "/data/logs/web.err".to_string() } }
    );
    let s = step(&mut stream, LogEvent::Length(None));
    assert_eq!(s, LogStep { frames: vec![], next: LogAction::Sleep { millis: 100 } });
    // Second poll: the output has grown.
    let s = step(&mut stream, LogEvent::Done);
    assert_eq!(s.next, LogAction::Stat { path: "/data/logs/web.out".to_string() });
    let s = step(&mut stream, LogEvent::Length(Some(24)));
    assert_eq!(
        s,
        LogStep {
            frames: vec![],
            next: LogAction::Read { path: "/data/logs/web.out".to_string(), from: 12 },
        }
    );
    let s = step(&mut stream, content("line2\nline3\n"));
    assert_eq!(s.frames, vec![line(None, "line2"), line(None, "line3")]);
    assert!(s.frames.iter().any(|f| matches!(f, Response::LogLine { line, .. } if line.contains("line"))));
    assert_eq!(s.next, LogAction::Stat { path: "/data/logs/web.err".to_string() });
    let s = step(&mut stream, LogEvent::Length(Some(0)));
    assert_eq!(s, LogStep { frames: vec![], next: LogAction::Flush });
    let s = step(&mut stream, LogEvent::Done);
    assert_eq!(s, LogStep { frames: vec![], next: LogAction::Sleep { millis: 100 } });
    // Third poll: the next read goes on where the last one ended.
    step(&mut stream, LogEvent::Done);
    let s = step(&mut stream, LogEvent::Length(Some(30)));
    assert_eq!(s.next, LogAction::Read { path: "/data/logs/web.out".to_string(), from: 24 });
}

#[test]
fn follow_started_on_an_empty_file_sends_what_comes_after() {
    let table = ProcessTable::new();
    let (mut stream, _) = handle_log(Some("web".to_string()), 0, true, &table, &paths());
    step(&mut stream, LogEvent::Length(Some(0)));
    step(&mut stream, LogEvent::Length(Some(0)));
    let s = step(&mut stream, LogEvent::Length(Some(0)));
    assert_eq!(s.next, LogAction::Stat { path: "/data/logs/web.err".to_string() });
    let s = step(&mut stream, LogEvent::Length(Some(0)));
    assert_eq!(s.next, LogAction::Sleep { millis: 100 });
    step(&mut stream, LogEvent::Done);
    let s = step(&mut stream, LogEvent::Length(Some(6)));
    assert_eq!(s.next, LogAction::Read { path: "/data/logs/web.out".to_string(), from: 0 });
    let s = step(&mut stream, content("first\n"));
    assert_eq!(s.frames, vec![line(None, "first")]);
}

#[test]
fn follow_counts_bytes_not_characters() {
    let table = ProcessTable::new();
    let (mut stream, _) = handle_log(Some("web".to_string()), 0, true, &table, &paths());
    step(&mut stream, LogEvent::Length(Some(0)));
    step(&mut stream, LogEvent::Length(Some(0)));
    let s = step(&mut stream, LogEvent::Length(Some(7)));
    assert_eq!(s.next, LogAction::Read { path: "/data/logs/web.out".to_string(), from: 0 });
    let s = step(&mut stream, content("héllo\r\n"));
    assert_eq!(s.frames, vec![line(None, "héllo")]);
    step(&mut stream, LogEvent::Length(None));
    step(&mut stream, LogEvent::Done);
    step(&mut stream, LogEvent::Done);
    let s = step(&mut stream, LogEvent::Length(Some(9)));
    assert_eq!(s.next, LogAction::Read { path: "/data/logs/web.out".to_string(), from: 8 });
}

#[test]
fn follow_of_several_processes_carries_names() {
    let d = table_with(&["web", "worker"]);
    let (mut stream, first) = handle_log(None, 0, true, d.table(), &paths());
    assert_eq!(first.next, LogAction::Stat { path: "/data/logs/web.out".to_string() });
    for _ in 0..4 {
        step(&mut stream, LogEvent::Length(Some(0)));
    }
    // first poll
    step(&mut stream, LogEvent::Length(Some(0)));
    let s = step(&mut stream, LogEvent::Length(Some(4)));
    assert_eq!(s.next, LogAction::Read { path: "/data/logs/web.err".to_string(), from: 0 });
    let s = step(&mut stream, content("bad\n"));
    assert_eq!(s.frames, vec![line(Some("web:err"), "bad")]);
    assert_eq!(s.next, LogAction::Stat { path: "/data/logs/worker.out".to_string() });
    let s = step(&mut stream, LogEvent::Length(Some(3)));
    assert_eq!(s.next, LogAction::Read { path: "/data/logs/worker.out".to_string(), from: 0 });
    let s = step(&mut stream, content("ok\n"));
    assert_eq!(s.frames, vec![line(Some("worker"), "ok")]);
    let s = step(&mut stream, LogEvent::Length(None));
    assert_eq!(s.next, LogAction::Flush);
}

#[test]
fn follow_refuses_more_bytes_than_an_offset_counts() {
    let table = ProcessTable::new();
    let (mut stream, _) = handle_log(Some("web".to_string()), 0, true, &table, &paths());
    step(&mut stream, LogEvent::Length(Some(u64::MAX - 2)));
    step(&mut stream, LogEvent::Length(Some(0)));
    let s = step(&mut stream, LogEvent::Length(Some(u64::MAX)));
    assert_eq!(
        s.next,
        LogAction::Read { path: "/data/logs/web.out".to_string(), from: u64::MAX - 2 }
    );
    assert!(!stream.accepts(&content("abc\n")));
    assert!(stream.accepts(&content("a\n")));
    assert!(stream.accepts(&LogEvent::Content(None)));
}

#[test]
fn a_report_that_answers_nothing_is_ignored_by_the_stream() {
    let table = ProcessTable::new();
    let (mut stream, _) = handle_log(Some("web".to_string()), 5, false, &table, &paths());
    assert_eq!(
        step(&mut stream, LogEvent::Length(Some(3))),
        LogStep { frames: vec![], next: LogAction::Ignored }
    );
    assert_eq!(
        step(&mut stream, LogEvent::Done),
        LogStep { frames: vec![], next: LogAction::Ignored }
    );
    let out = step(&mut stream, content("x\n"));
    assert_eq!(out.frames, vec![line(None, "x")]);
}

#[test]
fn a_file_that_cannot_be_read_counts_as_empty_for_last_lines() {
    let d = table_with(&["web"]);
    let (mut stream, _) = handle_log(Some("web".to_string()), 5, false, d.table(), &paths());
    assert_eq!(
        step(&mut stream, LogEvent::Failed),
        LogStep { frames: vec![], next: read("/data/logs/web.err") }
    );
    assert_eq!(
        step(&mut stream, LogEvent::Failed),
        LogStep { frames: vec![end()], next: LogAction::Close }
    );
}

#[test]
fn a_failure_ends_a_stream_that_follows() {
    let table = ProcessTable::new();
    // While the lengths are taken, a failure counts as an absent file.
    let (mut stream, _) = handle_log(Some("web".to_string()), 0, true, &table, &paths());
    let s = step(&mut stream, LogEvent::Failed);
    assert_eq!(s.next, LogAction::Stat { path: "/data/logs/web.err".to_string() });
    let s = step(&mut stream, LogEvent::Failed);
    assert_eq!(s.next, LogAction::Stat { path: "/data/logs/web.out".to_string() });
    // After that it ends the stream.
    let s = step(&mut stream, LogEvent::Length(Some(3)));
    assert_eq!(s.next, LogAction::Read { path: "/data/logs/web.out".to_string(), from: 0 });
    assert_eq!(
        step(&mut stream, LogEvent::Failed),
        LogStep { frames: vec![], next: LogAction::Close }
    );
    assert_eq!(
        step(&mut stream, LogEvent::Done),
        LogStep { frames: vec![], next: LogAction::Ignored }
    );

    let (mut stream, _) = handle_log(Some("web".to_string()), 0, true, &table, &paths());
    step(&mut stream, LogEvent::Length(None));
    step(&mut stream, LogEvent::Length(None));
    assert_eq!(
        step(&mut stream, LogEvent::Failed),
        LogStep { frames: vec![], next: LogAction::Close }
    );
}

#[test]
fn a_stream_that_follows_ends_with_its_client() {
    let table = ProcessTable::new();
    let gone = LogStep { frames: vec![], next: LogAction::Close };

    // while it waits for the next poll
    let (mut stream, _) = handle_log(Some("web".to_string()), 0, true, &table, &paths());
    step(&mut stream, LogEvent::Length(None));
    step(&mut stream, LogEvent::Length(None));
    step(&mut stream, LogEvent::Length(None));
    let s = step(&mut stream, LogEvent::Length(None));
    assert_eq!(s.next, LogAction::Sleep { millis: 100 });
    assert_eq!(step(&mut stream, LogEvent::Hangup), gone);
    assert_eq!(
        step(&mut stream, LogEvent::Done),
        LogStep { frames: vec![], next: LogAction::Ignored }
    );

    // while the lengths are taken
    let (mut stream, _) = handle_log(Some("web".to_string()), 0, true, &table, &paths());
    assert_eq!(step(&mut stream, LogEvent::Hangup), gone);

    // while a file is polled or read
    let (mut stream, _) = handle_log(Some("web".to_string()), 0, true, &table, &paths());
    step(&mut stream, LogEvent::Length(None));
    step(&mut stream, LogEvent::Length(None));
    let mut probing = stream;
    assert_eq!(step(&mut probing, LogEvent::Hangup), gone);

    let (mut stream, _) = handle_log(Some("web".to_string()), 0, true, &table, &paths());
    step(&mut stream, LogEvent::Length(None));
    step(&mut stream, LogEvent::Length(None));
    let s = step(&mut stream, LogEvent::Length(Some(4)));
    assert!(matches!(s.next, LogAction::Read { .. }));
    assert_eq!(step(&mut stream, LogEvent::Hangup), gone);
}

#[test]
fn a_failed_wait_ends_a_stream_that_follows() {
    let table = ProcessTable::new();
    let (mut stream, _) = handle_log(Some("web".to_string()), 0, true, &table, &paths());
    for _ in 0..4 {
        step(&mut stream, LogEvent::Length(None));
    }
    assert_eq!(
        step(&mut stream, LogEvent::Failed),
        LogStep { frames: vec![], next: LogAction::Close }
    );
}

#[test]
fn last_lines_take_no_notice_of_a_hangup() {
    let table = ProcessTable::new();
    let (mut stream, _) = handle_log(Some("web".to_string()), 2, false, &table, &paths());
    assert_eq!(
        step(&mut stream, LogEvent::Hangup),
        LogStep { frames: vec![], next: LogAction::Ignored }
    );
    let out = step(&mut stream, content("a\nb\nc\n"));
    assert_eq!(out.frames, vec![line(None, "b"), line(None, "c")]);
    assert_eq!(
        step(&mut stream, LogEvent::Content(None)),
        LogStep { frames: vec![end()], next: LogAction::Close }
    );
}
