use shuru::guest::{
    Ack, Answer, DirEntry, FileStat, ForwardResponse, GuestRequest, MountRequest, PortMapping,
    Received, SandboxError, Topic,
};
use shuru::sandbox::{
    bind_error, forward_notice, forward_request, forward_result, fs_result, listener_step,
    local_address, read_dir_result, read_file_result, shell_step, stat_result, terminal_step,
    write_file_result, Accepted, Connector, ExecOutput, ListenerStep, Outgoing, ProcessFrame,
    Sandbox, ShellStep, TerminalEvent, TerminalStep, VmState,
};
use shuru::string_map::StringMap;

fn mount(tag: &str, guest_path: &str) -> MountRequest {
    MountRequest { tag: tag.to_string(), guest_path: guest_path.to_string(), read_only: true }
}

fn ok() -> Received<Option<Ack>> {
    Received::Frame { frame: Some(Ack { ok: true, error: None }) }
}

fn refused(error: Option<&str>) -> Option<Ack> {
    Some(Ack { ok: false, error: error.map(|e| e.to_string()) })
}

fn strings(v: Vec<&str>) -> Vec<String> {
    v.into_iter().map(|s| s.to_string()).collect()
}

#[test]
fn mounts_come_first_and_once() {
    let mut sandbox = Sandbox::new(vec![mount("mount0", "/a"), mount("mount1", "/b")]);
    let mut first = sandbox.stat("/f");
    let second = sandbox.stat("/g");
    assert!(matches!(second.next(), Outgoing::Request { .. }));
    match first.next() {
        Outgoing::Mount { mount } => assert_eq!(mount.tag, "mount0"),
        Outgoing::Request { .. } => panic!("mounts come first"),
    }
    assert!(first.mount_answered(ok()).is_ok());
    match first.next() {
        Outgoing::Mount { mount } => assert_eq!(mount.tag, "mount1"),
        Outgoing::Request { .. } => panic!("mounts come first"),
    }
    assert!(first.mount_answered(ok()).is_ok());
    match first.next() {
        Outgoing::Request { request: GuestRequest::Stat { path } } => assert_eq!(path, "/f"),
        _ => panic!("the request is due"),
    }
}

#[test]
fn a_mount_that_fails_ends_the_conversation() {
    let cases = vec![
        (Received::Failed, "reading mount response"),
        (Received::Closed, "guest closed connection during mount init"),
        (
            Received::Frame { frame: None },
            "guest does not support directory mounts. Run `shuru upgrade` and recreate the checkpoint to enable --mount.",
        ),
        (
            Received::Frame { frame: refused(Some("no such device")) },
            "mount failed: mount0 -> /a: no such device",
        ),
        (Received::Frame { frame: refused(None) }, "mount failed: mount0 -> /a: unknown error"),
    ];
    for (read, message) in cases {
        let mut sandbox = Sandbox::new(vec![mount("mount0", "/a")]);
        let mut conversation = sandbox.stat("/f");
        let err = conversation.mount_answered(read).unwrap_err();
        assert_eq!(err.to_string(), message);
        assert!(matches!(conversation.next(), Outgoing::Mount { .. }));
    }
}

#[test]
fn requests_say_what_was_asked() {
    let mut sandbox = Sandbox::new(vec![]);
    let mut env = StringMap::new();
    env.insert("K".to_string(), "v".to_string());
    let argv = strings(vec!["ls", "-l"]);

    match sandbox.open_exec(&argv, &env, Some("/w")).next() {
        Outgoing::Request { request: GuestRequest::Exec { request } } => {
            assert_eq!(request.argv, argv);
            assert_eq!(request.env.get("K").unwrap(), "v");
            assert_eq!(request.cwd, Some("/w".to_string()));
            assert_eq!(request.tty, None);
        }
        _ => panic!("exec"),
    }
    match sandbox.exec(&argv).next() {
        Outgoing::Request { request: GuestRequest::Exec { request } } => {
            assert!(request.env.is_empty());
            assert_eq!(request.cwd, None);
        }
        _ => panic!("exec"),
    }
    match sandbox.shell(&argv, &env, 24, 80).next() {
        Outgoing::Request { request: GuestRequest::Exec { request } } => {
            assert_eq!(request.tty, Some(true));
            assert_eq!(request.rows, Some(24));
            assert_eq!(request.cols, Some(80));
        }
        _ => panic!("shell"),
    }
    match sandbox.write_file("/f", vec![1, 2, 3]).next() {
        Outgoing::Request { request: GuestRequest::WriteFile { path, len, content } } => {
            assert_eq!(path, "/f");
            assert_eq!(*len, 3);
            assert_eq!(content, &vec![1, 2, 3]);
        }
        _ => panic!("write_file"),
    }
    match sandbox.rename("/a", "/b").next() {
        Outgoing::Request { request: GuestRequest::Rename { old_path, new_path } } => {
            assert_eq!(old_path, "/a");
            assert_eq!(new_path, "/b");
        }
        _ => panic!("rename"),
    }
    match sandbox.copy("/a", "/b", true).next() {
        Outgoing::Request { request: GuestRequest::Copy { src, dst, recursive } } => {
            assert_eq!(src, "/a");
            assert_eq!(dst, "/b");
            assert!(recursive);
        }
        _ => panic!("copy"),
    }
    match sandbox.chmod("/a", 0o644).next() {
        Outgoing::Request { request: GuestRequest::Chmod { path, mode } } => {
            assert_eq!(path, "/a");
            assert_eq!(*mode, 0o644);
        }
        _ => panic!("chmod"),
    }
    assert!(matches!(
        sandbox.mkdir("/a", true).next(),
        Outgoing::Request { request: GuestRequest::Mkdir { recursive: true, .. } }
    ));
    assert!(matches!(
        sandbox.remove("/a", false).next(),
        Outgoing::Request { request: GuestRequest::Remove { recursive: false, .. } }
    ));
    assert!(matches!(
        sandbox.open_watch("/a", true).next(),
        Outgoing::Request { request: GuestRequest::Watch { recursive: true, .. } }
    ));
    assert!(matches!(
        sandbox.read_dir("/a").next(),
        Outgoing::Request { request: GuestRequest::ReadDir { .. } }
    ));
    assert!(matches!(
        forward_request(&PortMapping { host_port: 1, guest_port: 2 }),
        GuestRequest::Forward { port: 2 }
    ));
}

#[test]
fn read_file_gives_the_content_or_the_reason() {
    let content = read_file_result(Received::Frame { frame: Answer::Expected { value: vec![7] } });
    assert_eq!(content.unwrap(), vec![7]);
    let err = read_file_result(Received::Frame {
        frame: Answer::Error { payload: b"no such file".to_vec() },
    });
    assert_eq!(err.unwrap_err().to_string(), "no such file");
    let err = read_file_result(Received::Frame { frame: Answer::Other { frame_type: 0x0a } });
    assert_eq!(
        err.unwrap_err().to_string(),
        "unexpected frame type 0x0a in read_file response"
    );
    assert_eq!(
        read_file_result(Received::Closed).unwrap_err().to_string(),
        "guest closed connection during read_file"
    );
    assert_eq!(
        read_file_result(Received::Failed).unwrap_err().to_string(),
        "reading read_file response"
    );
    let garbled = read_file_result(Received::Frame {
        frame: Answer::Error { payload: vec![0x66, 0xff, 0x67] },
    });
    assert_eq!(garbled.unwrap_err().to_string(), "f\u{fffd}g");
}

#[test]
fn directories_and_metadata_are_parsed() {
    let entries = vec![DirEntry { name: "a".into(), entry_type: "file".into(), size: 3 }];
    let r = read_dir_result(Received::Frame { frame: Answer::Expected { value: Some(entries) } });
    assert_eq!(r.unwrap()[0].name, "a");
    let r = read_dir_result(Received::Frame { frame: Answer::Expected { value: None } });
    assert_eq!(r.unwrap_err().to_string(), "parsing read_dir response");
    let stat = FileStat {
        size: 1,
        mode: 2,
        mtime: 3,
        is_dir: false,
        is_file: true,
        is_symlink: false,
    };
    let r = stat_result(Received::Frame { frame: Answer::Expected { value: Some(stat) } });
    assert_eq!(r.unwrap().mtime, 3);
    assert_eq!(
        stat_result(Received::Closed).unwrap_err().to_string(),
        "guest closed connection during stat"
    );
    let r = stat_result(Received::Frame { frame: Answer::Other { frame_type: 255 } });
    assert_eq!(r.unwrap_err().to_string(), "unexpected frame type 0xff in stat response");
}

#[test]
fn changes_of_files_are_acknowledged() {
    let r = fs_result(Received::Frame {
        frame: Answer::Expected { value: Some(Ack { ok: true, error: None }) },
    });
    assert!(r.is_ok());
    let r = fs_result(Received::Frame { frame: Answer::Expected { value: refused(Some("busy")) } });
    assert_eq!(r.unwrap_err().to_string(), "busy");
    let r = fs_result(Received::Frame { frame: Answer::Expected { value: refused(None) } });
    assert_eq!(r.unwrap_err().to_string(), "unknown error");
    let r = fs_result(Received::Frame { frame: Answer::Expected { value: None } });
    assert_eq!(r.unwrap_err().to_string(), "parsing fs ok response");
    let r = fs_result(Received::Frame { frame: Answer::Other { frame_type: 1 } });
    assert_eq!(r.unwrap_err().to_string(), "unexpected frame type 0x01");
    assert_eq!(fs_result(Received::Closed).unwrap_err().to_string(), "guest closed connection");
    assert_eq!(fs_result(Received::Failed).unwrap_err().to_string(), "reading fs op response");

    assert!(write_file_result(ok()).is_ok());
    let r = write_file_result(Received::Frame { frame: refused(Some("full")) });
    assert_eq!(r.unwrap_err().to_string(), "write_file failed: full");
    let r = write_file_result(Received::Frame { frame: None });
    assert_eq!(r.unwrap_err().to_string(), "parsing write_file response");
    assert!(matches!(
        write_file_result(Received::Closed).unwrap_err(),
        SandboxError::GuestClosed { topic: Topic::WriteFile }
    ));
}

#[test]
fn a_forward_needs_the_guests_consent() {
    let response = |status: &str, message: Option<&str>| Received::Frame {
        frame: Some(ForwardResponse {
            status: status.to_string(),
            message: message.map(|m| m.to_string()),
        }),
    };
    assert!(forward_result(response("ok", None)).is_ok());
    assert_eq!(
        forward_result(response("error", Some("refused"))).unwrap_err().to_string(),
        "guest refused forward: refused"
    );
    assert_eq!(
        forward_result(response("OK", None)).unwrap_err().to_string(),
        "guest refused forward: "
    );
    assert_eq!(
        forward_result(Received::Closed).unwrap_err().to_string(),
        "guest closed connection during forward handshake"
    );
    assert_eq!(
        forward_result(Received::Frame { frame: None }).unwrap_err().to_string(),
        "parsing forward response"
    );
}

#[test]
fn output_is_collected_to_the_end() {
    let mut out = ExecOutput::new();
    let frames = vec![
        ProcessFrame::Stdout { data: b"ab".to_vec() },
        ProcessFrame::Stderr { data: b"x".to_vec() },
        ProcessFrame::Other,
        ProcessFrame::Stdout { data: b"c".to_vec() },
    ];
    for frame in frames {
        assert!(out.take(Received::Frame { frame }).is_none());
    }
    let end = out.take(Received::Frame { frame: ProcessFrame::Exit { code: Some(3) } });
    assert_eq!(end.unwrap().unwrap(), 3);
    assert_eq!(out.stdout, b"abc");
    assert_eq!(out.stderr, b"x");
}

#[test]
fn output_in_pieces_is_the_whole_output() {
    let mut out = ExecOutput::new();
    let mut shown = Vec::new();
    for piece in ["one", "two", "three"] {
        let data = piece.as_bytes().to_vec();
        assert!(out.take(Received::Frame { frame: ProcessFrame::Stdout { data } }).is_none());
        shown.extend(out.hand_out().stdout);
    }
    assert_eq!(shown, b"onetwothree");
    assert!(out.stdout.is_empty());
}

#[test]
fn a_command_ends_in_several_ways() {
    let mut out = ExecOutput::new();
    assert_eq!(out.take(Received::Closed).unwrap().unwrap(), 0);
    let end = out.take(Received::Frame { frame: ProcessFrame::Exit { code: None } });
    assert_eq!(end.unwrap().unwrap(), 0);
    let end = out.take(Received::Frame {
        frame: ProcessFrame::Error { payload: b"no such command".to_vec() },
    });
    assert_eq!(end.unwrap().unwrap(), 1);
    assert_eq!(out.stderr, b"guest error: no such command");
    assert_eq!(
        out.take(Received::Failed).unwrap().unwrap_err().to_string(),
        "reading vsock response"
    );
}

#[test]
fn a_shell_shows_output_and_ends() {
    let show = shell_step(
        Received::Frame { frame: ProcessFrame::Stdout { data: b"a".to_vec() } },
        true,
    );
    assert!(matches!(show, ShellStep::Show { flush: false, .. }));
    let show = shell_step(
        Received::Frame { frame: ProcessFrame::Stdout { data: b"a".to_vec() } },
        false,
    );
    assert!(matches!(show, ShellStep::Show { flush: true, .. }));
    let step = shell_step(
        Received::Frame { frame: ProcessFrame::Stderr { data: b"a".to_vec() } },
        false,
    );
    assert!(matches!(step, ShellStep::Ignore));
    let step = shell_step(Received::Frame { frame: ProcessFrame::Exit { code: Some(9) } }, false);
    assert!(matches!(step, ShellStep::Done { message: None, code: 9 }));
    match shell_step(
        Received::Frame { frame: ProcessFrame::Error { payload: b"oops".to_vec() } },
        false,
    ) {
        ShellStep::Done { message, code } => {
            assert_eq!(message, Some("guest error: oops\r\n".to_string()));
            assert_eq!(code, 1);
        }
        _ => panic!("the session is over"),
    }
    assert!(matches!(
        shell_step(Received::Failed, false),
        ShellStep::Done { message: None, code: 0 }
    ));
}

#[test]
fn a_terminal_sends_input_until_it_ends() {
    assert!(matches!(
        terminal_step(TerminalEvent::Input { data: vec![1] }),
        TerminalStep::Stdin { .. }
    ));
    assert!(matches!(terminal_step(TerminalEvent::Input { data: vec![] }), TerminalStep::Stop));
    assert!(matches!(
        terminal_step(TerminalEvent::Resize { rows: 1, cols: 2 }),
        TerminalStep::Resize { rows: 1, cols: 2 }
    ));
    assert!(matches!(terminal_step(TerminalEvent::Shutdown), TerminalStep::Stop));
}

#[test]
fn a_guest_is_given_fifty_attempts() {
    let mut connector = Connector::new();
    for _ in 1..50 {
        assert!(connector.check(None).is_ok());
        assert!(connector.check(Some(VmState::Other)).is_ok());
        assert_eq!(connector.failed("refused").ok(), Some(200));
    }
    let err = connector.failed("refused").unwrap_err();
    assert_eq!(err.to_string(), "Failed to connect to guest after 50 attempts: refused");
    assert_eq!(
        connector.check(Some(VmState::Stopped)).unwrap_err().to_string(),
        "VM stopped during startup - check boot output above for errors"
    );
    assert_eq!(
        connector.check(Some(VmState::Error)).unwrap_err().to_string(),
        "VM encountered an error during startup"
    );
}

#[test]
fn forwards_listen_on_loopback() {
    let mapping = PortMapping { host_port: 8080, guest_port: 80 };
    assert_eq!(local_address(8080), "127.0.0.1:8080");
    assert_eq!(forward_notice(&mapping), "shuru: forwarding 127.0.0.1:8080 -> guest:80");
    assert_eq!(bind_error(&mapping), "Failed to bind port 8080");
    assert_eq!(listener_step(false, Accepted::Connection), ListenerStep::Relay);
    assert_eq!(listener_step(false, Accepted::WouldBlock), ListenerStep::Wait { ms: 50 });
    assert_eq!(listener_step(false, Accepted::Failed), ListenerStep::Stop);
    assert_eq!(listener_step(true, Accepted::Connection), ListenerStep::Stop);
}
