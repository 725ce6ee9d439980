use shuru::guest::{Answer, DirEntry, FileStat, Received, WatchEvent};
use shuru::rpc::{
    checkpoint_response, default_recursive, default_true, done_response, exec_response, input_step,
    notification_of, parse_error, process_step, read_dir_response, read_file_response,
    spawn_failed, stat_response, sync_command, take_line, watch_step, Action, Body, Call, CheckpointOutcome,
    Event, InputFrame, LineRead, LineStep, Method, Notification, Params, ProcessInput, Response,
    Session, Stream, WatchStep,
};
use shuru::sandbox::{ExecOutput, ProcessFrame};
use shuru::string_map::StringMap;

fn map(entries: Vec<(&str, &str)>) -> StringMap<String> {
    let mut m = StringMap::new();
    for (k, v) in entries {
        m.insert(k.to_string(), v.to_string());
    }
    m
}

fn error_of(response: Response<u32>) -> (Option<u32>, i32, String) {
    match response.body {
        Body::Error { code, message } => (response.id, code, message),
        _ => panic!("not an error"),
    }
}

fn reply(action: Action<u32>) -> Response<u32> {
    match action {
        Action::Reply { response } => response,
        _ => panic!("not a reply"),
    }
}

fn spawn() -> Call {
    Call::Valid {
        params: Params::Spawn { argv: vec!["sh".to_string()], env: StringMap::new(), cwd: None },
    }
}

fn pid_of(action: Action<u32>) -> String {
    match action {
        Action::Spawn { pid, response, .. } => {
            assert!(matches!(response.body, Body::Spawned { pid: ref p } if *p == pid));
            pid
        }
        _ => panic!("not a spawn"),
    }
}

#[test]
fn lines_are_trimmed() {
    assert!(matches!(take_line(LineRead::Eof), LineStep::Stop));
    assert!(matches!(take_line(LineRead::Failed), LineStep::Stop));
    assert!(matches!(take_line(LineRead::Line(" \t\r\n".to_string())), LineStep::Skip));
    match take_line(LineRead::Line("  {\"a\": 1}\n".to_string())) {
        LineStep::Parse(text) => assert_eq!(text, "{\"a\": 1}"),
        _ => panic!("there is a request"),
    }
}

#[test]
fn methods_have_names() {
    let names = [
        "exec", "spawn", "kill", "input", "watch", "read_file", "write_file", "checkpoint", "mkdir",
        "read_dir", "stat", "remove", "rename", "copy", "chmod",
    ];
    for name in names {
        assert_eq!(Method::from_name(name).unwrap().name(), name);
    }
    assert_eq!(Method::from_name("Exec"), None);
    assert_eq!(Method::from_name(""), None);
    assert!(default_true());
    assert!(default_recursive(Method::Mkdir));
    assert!(default_recursive(Method::Watch));
    assert!(!default_recursive(Method::Remove));
    assert!(!default_recursive(Method::Copy));
}

#[test]
fn what_is_no_request_is_an_error() {
    let (id, code, message) = error_of(parse_error("expected value at line 1 column 1"));
    assert_eq!(id, None);
    assert_eq!(code, -32700);
    assert_eq!(message, "parse error: expected value at line 1 column 1");

    let mut session = Session::new(StringMap::new());
    let r = reply(session.handle(1u32, Call::Unknown { name: "fly".to_string() }));
    assert_eq!(error_of(r), (Some(1), -32601, "method not found: fly".to_string()));
    let call = Call::Malformed { method: Method::Stat, error: "missing field `path`".to_string() };
    let r = reply(session.handle(2u32, call));
    assert_eq!(
        error_of(r),
        (Some(2), -32602, "invalid params: missing field `path`".to_string())
    );
    let call = Call::Malformed { method: Method::Input, error: "x".to_string() };
    assert!(matches!(session.handle(3u32, call), Action::Ignore));
}

#[test]
fn processes_are_numbered() {
    let mut session = Session::new(StringMap::new());
    assert_eq!(pid_of(session.handle(1u32, spawn())), "p1");
    assert_eq!(pid_of(session.handle(2u32, spawn())), "p2");
    for n in 3..12u32 {
        assert_eq!(pid_of(session.handle(n, spawn())), format!("p{}", n));
    }
    // A request that is refused uses no number up.
    let refused = Call::Malformed { method: Method::Spawn, error: "x".to_string() };
    let (id, code, _) = error_of(reply(session.handle(12, refused)));
    assert_eq!((id, code), (Some(12), -32602));
    assert_eq!(pid_of(session.handle(13u32, spawn())), "p12");
}

#[test]
fn a_request_overrides_the_sessions_variables() {
    let mut session = Session::new(map(vec![("KEY", "token"), ("LANG", "C")]));
    let call = Call::Valid {
        params: Params::Spawn {
            argv: vec!["env".to_string()],
            env: map(vec![("LANG", "de"), ("X", "1")]),
            cwd: Some("/w".to_string()),
        },
    };
    match session.handle(1u32, call) {
        Action::Spawn { env, cwd, argv, .. } => {
            assert_eq!(env.len(), 3);
            assert_eq!(env.get("KEY").unwrap(), "token");
            assert_eq!(env.get("LANG").unwrap(), "de");
            assert_eq!(env.get("X").unwrap(), "1");
            assert_eq!(cwd, Some("/w".to_string()));
            assert_eq!(argv, vec!["env".to_string()]);
        }
        _ => panic!("not a spawn"),
    }
    match session.handle(2u32, Call::Valid { params: Params::Exec { argv: vec![] } }) {
        Action::Exec { id, env, .. } => {
            assert_eq!(id, 2);
            assert_eq!(env.get("LANG").unwrap(), "C");
        }
        _ => panic!("not an exec"),
    }
}

#[test]
fn only_known_processes_are_killed_and_fed() {
    let mut session = Session::new(StringMap::new());
    let kill = |pid: &str| Call::Valid { params: Params::Kill { pid: pid.to_string() } };
    let input = |pid: &str, data: &str| Call::Valid {
        params: Params::Input { pid: pid.to_string(), data: data.to_string() },
    };
    match session.handle(1u32, kill("p1")) {
        Action::Kill { target, response } => {
            assert_eq!(target, None);
            assert_eq!(response.id, Some(1));
            assert!(matches!(response.body, Body::Empty));
        }
        _ => panic!("not a kill"),
    }
    session.handle(2u32, spawn());
    match session.handle(3u32, kill("p1")) {
        Action::Kill { target, .. } => assert_eq!(target, Some("p1".to_string())),
        _ => panic!("not a kill"),
    }
    match session.handle(4u32, input("p1", "aGk=")) {
        Action::Input { pid, data } => {
            assert_eq!(pid, "p1");
            assert_eq!(data, b"hi");
        }
        _ => panic!("not input"),
    }
    assert!(matches!(session.handle(5u32, input("p1", "aGk")), Action::Ignore));
    assert!(matches!(session.handle(6u32, input("p2", "aGk=")), Action::Ignore));
}

#[test]
fn files_travel_in_base64() {
    let mut session = Session::new(StringMap::new());
    let data = vec![0u8, 1, 254, 255];
    let content = match read_file_response(1u32, Ok(data.clone())).body {
        Body::Content { content } => content,
        _ => panic!("no content"),
    };
    assert_eq!(content, "AAH+/w==");
    let call = Call::Valid { params: Params::WriteFile { path: "/f".to_string(), content } };
    match session.handle(2u32, call) {
        Action::WriteFile { id, path, data: written } => {
            assert_eq!(id, 2);
            assert_eq!(path, "/f");
            assert_eq!(written, data);
        }
        _ => panic!("not a write"),
    }
    let call = Call::Valid {
        params: Params::WriteFile { path: "/f".to_string(), content: "?".to_string() },
    };
    let (id, code, message) = error_of(reply(session.handle(3u32, call)));
    assert_eq!(id, Some(3));
    assert_eq!(code, -32602);
    assert!(message.starts_with("invalid base64: "));
    assert!(message.len() > "invalid base64: ".len());
}

#[test]
fn other_requests_become_actions() {
    let mut session = Session::new(StringMap::new());
    let path = || "/p".to_string();
    let mut act = |params: Params| session.handle(7u32, Call::Valid { params });
    assert!(matches!(act(Params::ReadFile { path: path() }), Action::ReadFile { id: 7, .. }));
    assert!(matches!(act(Params::ReadDir { path: path() }), Action::ReadDir { id: 7, .. }));
    assert!(matches!(act(Params::Stat { path: path() }), Action::Stat { id: 7, .. }));
    assert!(matches!(
        act(Params::Mkdir { path: path(), recursive: true }),
        Action::Mkdir { id: 7, recursive: true, .. }
    ));
    assert!(matches!(
        act(Params::Remove { path: path(), recursive: false }),
        Action::Remove { id: 7, recursive: false, .. }
    ));
    assert!(matches!(
        act(Params::Rename { old_path: path(), new_path: path() }),
        Action::Rename { id: 7, .. }
    ));
    assert!(matches!(
        act(Params::Copy { src: path(), dst: path(), recursive: true }),
        Action::Copy { id: 7, recursive: true, .. }
    ));
    assert!(matches!(
        act(Params::Chmod { path: path(), mode: 0o600 }),
        Action::Chmod { id: 7, mode: 0o600, .. }
    ));
    assert!(matches!(
        act(Params::Checkpoint { name: "c".to_string() }),
        Action::Checkpoint { id: 7, .. }
    ));
    match act(Params::Watch { path: path(), recursive: true }) {
        Action::Watch { response, recursive, .. } => {
            assert!(recursive);
            assert_eq!(response.id, Some(7));
        }
        _ => panic!("not a watch"),
    }
}

#[test]
fn outcomes_become_responses() {
    let mut output = ExecOutput::new();
    output.stdout.extend(b"out\xff");
    output.stderr.extend(b"err");
    let r = exec_response(1u32, Ok((output, 3)));
    assert_eq!(r.id, Some(1));
    match r.body {
        Body::Exec { stdout, stderr, exit_code } => {
            assert_eq!(stdout, "out\u{fffd}");
            assert_eq!(stderr, "err");
            assert_eq!(exit_code, 3);
        }
        _ => panic!("no output"),
    }
    let r = exec_response(1u32, Err("guest closed connection".to_string()));
    assert_eq!(
        error_of(r),
        (Some(1), -32000, "exec failed: guest closed connection".to_string())
    );
    let r = read_file_response(2u32, Err("no such file".to_string()));
    assert_eq!(error_of(r), (Some(2), -32000, "no such file".to_string()));
    assert!(matches!(done_response(3u32, Ok(())).body, Body::Empty));
    assert_eq!(
        error_of(done_response(3u32, Err("busy".to_string()))),
        (Some(3), -32000, "busy".to_string())
    );
    let entry = DirEntry { name: "a".into(), entry_type: "dir".into(), size: 0 };
    match read_dir_response(4u32, Ok(vec![entry])).body {
        Body::Entries { entries } => assert_eq!(entries[0].entry_type, "dir"),
        _ => panic!("no entries"),
    }
    let stat = FileStat {
        size: 9,
        mode: 0o755,
        mtime: 1,
        is_dir: true,
        is_file: false,
        is_symlink: false,
    };
    match stat_response(5u32, Ok(stat)).body {
        Body::Stat { stat } => assert_eq!(stat.size, 9),
        _ => panic!("no metadata"),
    }
    assert_eq!(
        error_of(stat_response(5u32, Err("gone".to_string()))).2,
        "gone"
    );
}

#[test]
fn a_checkpoint_ends_the_session() {
    let mut session = Session::new(map(vec![]));
    let params = Params::Checkpoint { name: "base".to_string() };
    let action = session.handle(1u32, Call::Valid { params });
    assert!(action.ends_session());
    assert_eq!(sync_command(), vec!["sync".to_string()]);
    let params = Params::Stat { path: "/tmp".to_string() };
    let action = session.handle(2u32, Call::Valid { params });
    assert!(!action.ends_session());
    assert!(!session.handle(3u32, spawn()).ends_session());
}

#[test]
fn checkpoints_fail_in_stages() {
    let error = || "x".to_string();
    let message = |o: CheckpointOutcome| error_of(checkpoint_response(1u32, o)).2;
    assert_eq!(message(CheckpointOutcome::SyncFailed { error: error() }), "checkpoint sync failed: x");
    assert_eq!(
        message(CheckpointOutcome::DirFailed { error: error() }),
        "failed to create checkpoints dir: x"
    );
    assert_eq!(
        message(CheckpointOutcome::CloneFailed { error: error() }),
        "checkpoint clone failed: x"
    );
    assert!(matches!(
        checkpoint_response(1u32, CheckpointOutcome::Saved).body,
        Body::Empty
    ));
}

#[test]
fn a_process_exits_once_and_last() {
    let step = |frame: ProcessFrame| process_step("p1", Received::Frame { frame });
    let (events, over) = step(ProcessFrame::Stdout { data: b"a".to_vec() });
    assert!(!over);
    assert!(matches!(events[0], Event::Output { stream: Stream::Stdout, .. }));
    let (events, over) = step(ProcessFrame::Stderr { data: b"a".to_vec() });
    assert!(!over);
    assert_eq!(events.len(), 1);
    let (events, over) = step(ProcessFrame::Exit { code: Some(2) });
    assert!(over);
    assert!(matches!(events[0], Event::Exit { code: 2, .. }));
    let (events, over) = step(ProcessFrame::Exit { code: None });
    assert!(over);
    assert!(matches!(events[0], Event::Exit { code: 0, .. }));
    let (events, over) = step(ProcessFrame::Error { payload: b"oops".to_vec() });
    assert!(over);
    assert_eq!(events.len(), 2);
    assert!(matches!(events[0], Event::Output { stream: Stream::Stderr, .. }));
    assert!(matches!(events[1], Event::Exit { code: 1, .. }));
    let (events, over) = step(ProcessFrame::Other);
    assert!(over);
    assert!(matches!(events[0], Event::Exit { code: 1, .. }));
    let (events, over) = process_step("p1", Received::Closed);
    assert!(over);
    assert!(matches!(events[0], Event::Exit { code: 1, .. }));
    assert!(matches!(spawn_failed("p1"), Event::Exit { code: 1, .. }));
}

#[test]
fn events_become_notifications() {
    let event = Event::Output { pid: "p1".into(), stream: Stream::Stderr, data: b"hi".to_vec() };
    let n = notification_of(event);
    assert_eq!(n.method(), "output");
    match n {
        Notification::Output { pid, stream, data } => {
            assert_eq!(pid, "p1");
            assert_eq!(stream, "stderr");
            assert_eq!(data, "aGk=");
        }
        _ => panic!("no output"),
    }
    let n = notification_of(Event::Exit { pid: "p1".into(), code: 4 });
    assert_eq!(n.method(), "exit");
    assert!(matches!(n, Notification::Exit { code: 4, .. }));
    let n = notification_of(Event::FileChange { path: "/f".into(), event: "modify".into() });
    assert_eq!(n.method(), "file_change");
    assert_eq!(Notification::Ready.method(), "ready");
}

#[test]
fn input_ends_with_a_kill() {
    assert!(matches!(
        input_step(ProcessInput::Stdin(vec![1])),
        (InputFrame::Stdin { .. }, false)
    ));
    assert!(matches!(input_step(ProcessInput::Kill), (InputFrame::Kill, true)));
}

#[test]
fn a_watch_reports_until_it_breaks() {
    let change = WatchEvent { path: "/f".into(), event: "create".into() };
    let step = watch_step(Received::Frame { frame: Answer::Expected { value: Some(change) } });
    match step {
        WatchStep::Report { event: Event::FileChange { path, event } } => {
            assert_eq!(path, "/f");
            assert_eq!(event, "create");
        }
        _ => panic!("no report"),
    }
    assert!(matches!(
        watch_step(Received::Frame { frame: Answer::Expected { value: None } }),
        WatchStep::Ignore
    ));
    assert!(matches!(
        watch_step(Received::Frame { frame: Answer::Other { frame_type: 1 } }),
        WatchStep::Stop
    ));
    assert!(matches!(watch_step(Received::Closed), WatchStep::Stop));
}
