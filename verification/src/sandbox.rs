//! Talking to the guest of a virtual machine.
//!
//! Every operation is a [`Conversation`] with the guest over a connection of its own.
//! The first one begins with the requests to mount the shared directories.

use crate::encoding::{lossy_text, utf8_lossy};
use crate::guest::{
    Ack, Answer, DirEntry, ExecRequest, FileStat, ForwardResponse, GuestRequest, MountRequest,
    PortMapping, Received, SandboxError, Topic,
};
use crate::machine::{are_defaults, VmConfigBuilder};
use crate::string_map::{copied, StringMap};
use crate::text::{
    cat, cat3, copied_strings, decimal, decimal_text, lemma_radix_text_injective, str_eq,
};
use vstd::prelude::*;
use vstd::utf8::encode_utf8;

verus! {

/// How often the host tries to reach a guest that is starting up.
pub const CONNECT_ATTEMPTS: u32 = 50;

/// How long the host waits between two attempts, in milliseconds.
pub const CONNECT_WAIT_MS: u64 = 200;

/// How long a listener waits before it looks for a connection again, in milliseconds.
pub const ACCEPT_WAIT_MS: u64 = 50;

/// A virtual machine and what its guest has yet to be told.
pub struct Sandbox {
    mounts: Vec<MountRequest>,
}

/// A conversation with the guest: mounts first, each of which has to be acknowledged,
/// and then the request.
pub struct Conversation {
    mounts: Vec<MountRequest>,
    acknowledged: usize,
    request: GuestRequest,
}

/// What to send to the guest next.
pub enum Outgoing<'a> {
    Mount { mount: &'a MountRequest },
    Request { request: &'a GuestRequest },
}

/// Whether the answer to a mount request gives that result.
pub open spec fn is_mount_result(
    read: Received<Option<Ack>>,
    mount: MountRequest,
    r: Result<(), SandboxError>,
) -> bool {
    match read {
        Received::Failed => r == Err::<(), _>(SandboxError::ReadFailed { topic: Topic::Mount }),
        Received::Closed => r == Err::<(), _>(SandboxError::GuestClosed { topic: Topic::Mount }),
        Received::Frame { frame: None } => r == Err::<(), _>(SandboxError::MountUnsupported),
        Received::Frame { frame: Some(ack) } => if ack.ok {
            r is Ok
        } else {
            r matches Err(SandboxError::MountFailed { tag, guest_path, error }) && tag == mount.tag
                && guest_path == mount.guest_path && error == ack.error
        },
    }
}

impl Conversation {
    #[verifier::type_invariant]
    spec fn mounts_are_acknowledged_in_order(self) -> bool {
        self.acknowledged <= self.mounts@.len()
    }

    /// The mounts of this conversation.
    pub closed spec fn mounts(self) -> Seq<MountRequest> {
        self.mounts@
    }

    /// How many of the mounts the guest has acknowledged.
    pub closed spec fn acknowledged(self) -> nat {
        self.acknowledged as nat
    }

    /// The request of this conversation.
    pub closed spec fn request(self) -> GuestRequest {
        self.request
    }

    /// What to send to the guest next: a mount, or the request once every mount was
    /// acknowledged.
    pub fn next(&self) -> (r: Outgoing<'_>)
        ensures
            self.acknowledged() <= self.mounts().len(),
            if self.acknowledged() < self.mounts().len() {
                r matches Outgoing::Mount { mount } && *mount
                    == self.mounts()[self.acknowledged() as int]
            } else {
                r matches Outgoing::Request { request } && *request == self.request()
            },
    {
        proof {
            use_type_invariant(self);
        }
        if self.acknowledged < self.mounts.len() {
            Outgoing::Mount { mount: &self.mounts[self.acknowledged] }
        } else {
            Outgoing::Request { request: &self.request }
        }
    }

    /// Takes the guest's answer to the mount that was sent last. After an error the
    /// conversation is over.
    pub fn mount_answered(&mut self, read: Received<Option<Ack>>) -> (r: Result<(), SandboxError>)
        requires
            old(self).acknowledged() < old(self).mounts().len(),
        ensures
            is_mount_result(read, old(self).mounts()[old(self).acknowledged() as int], r),
            final(self).acknowledged() == old(self).acknowledged() + (if r is Ok {
                1nat
            } else {
                0nat
            }),
            final(self).mounts() == old(self).mounts(),
            final(self).request() == old(self).request(),
    {
        proof {
            use_type_invariant(&*self);
        }
        match read {
            Received::Failed => Err(SandboxError::ReadFailed { topic: Topic::Mount }),
            Received::Closed => Err(SandboxError::GuestClosed { topic: Topic::Mount }),
            Received::Frame { frame } => match frame {
                None => Err(SandboxError::MountUnsupported),
                Some(ack) => if ack.ok {
                    assert(self.acknowledged < self.mounts.len());
                    self.acknowledged = self.acknowledged + 1;
                    Ok(())
                } else {
                    let mount = &self.mounts[self.acknowledged];
                    Err(
                        SandboxError::MountFailed {
                            tag: mount.tag.clone(),
                            guest_path: mount.guest_path.clone(),
                            error: ack.error,
                        },
                    )
                },
            },
        }
    }
}

/// Whether a request asks to run that command.
pub open spec fn is_exec_request(
    request: GuestRequest,
    argv: Seq<String>,
    env: Seq<(Seq<char>, String)>,
    cwd: Option<Seq<char>>,
    terminal: Option<(u16, u16)>,
) -> bool {
    &&& request matches GuestRequest::Exec { request: r }
    &&& r.argv@ == argv
    &&& r.env@ == env
    &&& match (r.cwd, cwd) {
        (Some(a), Some(b)) => a@ == b,
        (None, None) => true,
        _ => false,
    }
    &&& match terminal {
        Some((rows, cols)) => r.tty == Some(true) && r.rows == Some(rows) && r.cols == Some(cols),
        None => r.tty is None && r.rows is None && r.cols is None,
    }
}

impl Sandbox {
    /// The mounts that the guest has not been asked for yet.
    pub closed spec fn pending(self) -> Seq<MountRequest> {
        self.mounts@
    }

    /// Whether that is a new conversation, which takes over the mounts.
    pub open spec fn begins(before: Sandbox, after: Sandbox, r: Conversation) -> bool {
        &&& r.mounts() == before.pending()
        &&& r.acknowledged() == 0
        &&& after.pending().len() == 0
    }

    /// A sandbox whose guest is to mount those directories.
    pub fn new(mounts: Vec<MountRequest>) -> (r: Self)
        ensures
            r.pending() == mounts@,
    {
        Sandbox { mounts }
    }

    /// Starts to describe a machine.
    pub fn builder() -> (r: VmConfigBuilder)
        ensures
            are_defaults(r.settings()),
    {
        VmConfigBuilder::new()
    }

    fn begin(&mut self, request: GuestRequest) -> (r: Conversation)
        ensures
            Self::begins(*old(self), *final(self), r),
            r.request() == request,
    {
        let mut mounts: Vec<MountRequest> = Vec::new();
        std::mem::swap(&mut mounts, &mut self.mounts);
        Conversation { mounts, acknowledged: 0, request }
    }

    /// Runs a command in the guest, without a terminal.
    pub fn exec(&mut self, argv: &Vec<String>) -> (r: Conversation)
        ensures
            Self::begins(*old(self), *final(self), r),
            is_exec_request(r.request(), argv@, Seq::empty(), None, None),
    {
        let env: StringMap<String> = StringMap::new();
        self.exec_with_env(argv, &env)
    }

    /// Runs a command in the guest, without a terminal and with those variables set.
    pub fn exec_with_env(&mut self, argv: &Vec<String>, env: &StringMap<String>) -> (r:
        Conversation)
        ensures
            Self::begins(*old(self), *final(self), r),
            is_exec_request(r.request(), argv@, env@, None, None),
    {
        self.open_exec(argv, env, None)
    }

    /// Starts a command in the guest, whose output is then read as it comes.
    pub fn open_exec(
        &mut self,
        argv: &Vec<String>,
        env: &StringMap<String>,
        cwd: Option<&str>,
    ) -> (r: Conversation)
        ensures
            Self::begins(*old(self), *final(self), r),
            is_exec_request(
                r.request(),
                argv@,
                env@,
                match cwd {
                    Some(c) => Some(c@),
                    None => None,
                },
                None,
            ),
    {
        let request = ExecRequest {
            argv: copied_strings(argv),
            env: copied(env),
            tty: None,
            rows: None,
            cols: None,
            cwd: match cwd {
                Some(c) => Some(c.to_owned()),
                None => None,
            },
        };
        self.begin(GuestRequest::Exec { request })
    }

    /// Starts a command in the guest on a terminal of that size.
    pub fn open_shell(
        &mut self,
        argv: &Vec<String>,
        env: &StringMap<String>,
        rows: u16,
        cols: u16,
    ) -> (r: Conversation)
        ensures
            Self::begins(*old(self), *final(self), r),
            is_exec_request(r.request(), argv@, env@, None, Some((rows, cols))),
    {
        let request = ExecRequest {
            argv: copied_strings(argv),
            env: copied(env),
            tty: Some(true),
            rows: Some(rows),
            cols: Some(cols),
            cwd: None,
        };
        self.begin(GuestRequest::Exec { request })
    }

    /// Starts an interactive shell session, on the host's terminal of that size.
    pub fn shell(
        &mut self,
        argv: &Vec<String>,
        env: &StringMap<String>,
        rows: u16,
        cols: u16,
    ) -> (r: Conversation)
        ensures
            Self::begins(*old(self), *final(self), r),
            is_exec_request(r.request(), argv@, env@, None, Some((rows, cols))),
    {
        self.open_shell(argv, env, rows, cols)
    }

    /// Watches a path in the guest.
    pub fn open_watch(&mut self, path: &str, recursive: bool) -> (r: Conversation)
        ensures
            Self::begins(*old(self), *final(self), r),
            r.request() matches GuestRequest::Watch { path: p, recursive: b } && p@ == path@ && b
                == recursive,
    {
        self.begin(GuestRequest::Watch { path: path.to_owned(), recursive })
    }

    /// Reads a file of the guest.
    pub fn read_file(&mut self, path: &str) -> (r: Conversation)
        ensures
            Self::begins(*old(self), *final(self), r),
            r.request() matches GuestRequest::ReadFile { path: p } && p@ == path@,
    {
        self.begin(GuestRequest::ReadFile { path: path.to_owned() })
    }

    /// Writes a file of the guest. The request announces the length of the content.
    pub fn write_file(&mut self, path: &str, content: Vec<u8>) -> (r: Conversation)
        ensures
            Self::begins(*old(self), *final(self), r),
            r.request() matches GuestRequest::WriteFile { path: p, len, content: c } && p@ == path@
                && len == content@.len() && c == content,
    {
        let len = content.len() as u64;
        self.begin(GuestRequest::WriteFile { path: path.to_owned(), len, content })
    }

    /// Makes a directory in the guest.
    pub fn mkdir(&mut self, path: &str, recursive: bool) -> (r: Conversation)
        ensures
            Self::begins(*old(self), *final(self), r),
            r.request() matches GuestRequest::Mkdir { path: p, recursive: b } && p@ == path@ && b
                == recursive,
    {
        self.begin(GuestRequest::Mkdir { path: path.to_owned(), recursive })
    }

    /// Lists a directory of the guest.
    pub fn read_dir(&mut self, path: &str) -> (r: Conversation)
        ensures
            Self::begins(*old(self), *final(self), r),
            r.request() matches GuestRequest::ReadDir { path: p } && p@ == path@,
    {
        self.begin(GuestRequest::ReadDir { path: path.to_owned() })
    }

    /// Looks at the metadata of a file of the guest.
    pub fn stat(&mut self, path: &str) -> (r: Conversation)
        ensures
            Self::begins(*old(self), *final(self), r),
            r.request() matches GuestRequest::Stat { path: p } && p@ == path@,
    {
        self.begin(GuestRequest::Stat { path: path.to_owned() })
    }

    /// Removes a file or a directory of the guest.
    pub fn remove(&mut self, path: &str, recursive: bool) -> (r: Conversation)
        ensures
            Self::begins(*old(self), *final(self), r),
            r.request() matches GuestRequest::Remove { path: p, recursive: b } && p@ == path@ && b
                == recursive,
    {
        self.begin(GuestRequest::Remove { path: path.to_owned(), recursive })
    }

    /// Renames a file of the guest.
    pub fn rename(&mut self, old_path: &str, new_path: &str) -> (r: Conversation)
        ensures
            Self::begins(*old(self), *final(self), r),
            r.request() matches GuestRequest::Rename { old_path: p, new_path: q } && p@
                == old_path@ && q@ == new_path@,
    {
        self.begin(
            GuestRequest::Rename { old_path: old_path.to_owned(), new_path: new_path.to_owned() },
        )
    }

    /// Copies a file or a directory of the guest.
    pub fn copy(&mut self, src: &str, dst: &str, recursive: bool) -> (r: Conversation)
        ensures
            Self::begins(*old(self), *final(self), r),
            r.request() matches GuestRequest::Copy { src: p, dst: q, recursive: b } && p@ == src@
                && q@ == dst@ && b == recursive,
    {
        self.begin(GuestRequest::Copy { src: src.to_owned(), dst: dst.to_owned(), recursive })
    }

    /// Changes the mode of a file of the guest.
    pub fn chmod(&mut self, path: &str, mode: u32) -> (r: Conversation)
        ensures
            Self::begins(*old(self), *final(self), r),
            r.request() matches GuestRequest::Chmod { path: p, mode: m } && p@ == path@ && m
                == mode,
    {
        self.begin(GuestRequest::Chmod { path: path.to_owned(), mode })
    }
}

/// The guest is asked for each mount once: after one conversation has begun, no later
/// one has mounts.
pub proof fn law_mounts_are_asked_for_once(
    before: Sandbox,
    between: Sandbox,
    after: Sandbox,
    first: Conversation,
    second: Conversation,
)
    requires
        Sandbox::begins(before, between, first),
        Sandbox::begins(between, after, second),
    ensures
        first.mounts() == before.pending(),
        second.mounts().len() == 0,
        after.pending().len() == 0,
        first.acknowledged() == 0,
        second.acknowledged() == 0,
{
}

/// What reading an answer to a request of that topic gives.
pub open spec fn answer_of<T>(read: Received<Answer<T>>, topic: Topic) -> Result<T, SandboxError> {
    match read {
        Received::Failed => Err(SandboxError::ReadFailed { topic }),
        Received::Closed => Err(SandboxError::GuestClosed { topic }),
        Received::Frame { frame: Answer::Expected { value } } => Ok(value),
        Received::Frame { frame: Answer::Error { payload } } => Err(
            SandboxError::Guest { payload },
        ),
        Received::Frame { frame: Answer::Other { frame_type } } => Err(
            SandboxError::UnexpectedFrame { topic, frame_type },
        ),
    }
}

/// What reading an answer gives where it may be garbled.
pub open spec fn parsed_of<T>(read: Received<Answer<Option<T>>>, topic: Topic) -> Result<
    T,
    SandboxError,
> {
    match answer_of(read, topic) {
        Ok(Some(value)) => Ok(value),
        Ok(None) => Err(SandboxError::Unparsable { topic }),
        Err(e) => Err(e),
    }
}

/// What a change of the guest's files gives.
pub open spec fn fs_of(read: Received<Answer<Option<Ack>>>) -> Result<(), SandboxError> {
    match parsed_of(read, Topic::FsOp) {
        Ok(ack) => if ack.ok {
            Ok(())
        } else {
            Err(SandboxError::FsFailed { error: ack.error })
        },
        Err(e) => Err(e),
    }
}

/// What writing a file of the guest gives, where the frame that answers may be of any
/// type.
pub open spec fn write_of(read: Received<Option<Ack>>) -> Result<(), SandboxError> {
    match read {
        Received::Failed => Err(SandboxError::ReadFailed { topic: Topic::WriteFile }),
        Received::Closed => Err(SandboxError::GuestClosed { topic: Topic::WriteFile }),
        Received::Frame { frame: None } => Err(SandboxError::Unparsable { topic: Topic::WriteFile }),
        Received::Frame { frame: Some(ack) } => if ack.ok {
            Ok(())
        } else {
            Err(SandboxError::WriteFailed { error: ack.error })
        },
    }
}

/// What asking the guest to forward a port gives, where the frame that answers may be
/// of any type.
pub open spec fn forward_of(read: Received<Option<ForwardResponse>>) -> Result<(), SandboxError> {
    match read {
        Received::Failed => Err(SandboxError::ReadFailed { topic: Topic::Forward }),
        Received::Closed => Err(SandboxError::GuestClosed { topic: Topic::Forward }),
        Received::Frame { frame: None } => Err(SandboxError::Unparsable { topic: Topic::Forward }),
        Received::Frame { frame: Some(response) } => if response.status@ == "ok"@ {
            Ok(())
        } else {
            Err(SandboxError::ForwardRefused { message: response.message })
        },
    }
}

fn answer_result<T>(read: Received<Answer<T>>, topic: Topic) -> (r: Result<T, SandboxError>)
    ensures
        r == answer_of(read, topic),
{
    match read {
        Received::Failed => Err(SandboxError::ReadFailed { topic }),
        Received::Closed => Err(SandboxError::GuestClosed { topic }),
        Received::Frame { frame } => match frame {
            Answer::Expected { value } => Ok(value),
            Answer::Error { payload } => Err(SandboxError::Guest { payload }),
            Answer::Other { frame_type } => Err(
                SandboxError::UnexpectedFrame { topic, frame_type },
            ),
        },
    }
}

fn parsed_result<T>(read: Received<Answer<Option<T>>>, topic: Topic) -> (r: Result<
    T,
    SandboxError,
>)
    ensures
        r == parsed_of(read, topic),
{
    match answer_result(read, topic) {
        Ok(value) => match value {
            Some(v) => Ok(v),
            None => Err(SandboxError::Unparsable { topic }),
        },
        Err(e) => Err(e),
    }
}

/// What `read_file` gives: the content of the file.
pub fn read_file_result(read: Received<Answer<Vec<u8>>>) -> (r: Result<Vec<u8>, SandboxError>)
    ensures
        r == answer_of(read, Topic::ReadFile),
{
    answer_result(read, Topic::ReadFile)
}

/// What `read_dir` gives: the entries of the directory.
pub fn read_dir_result(read: Received<Answer<Option<Vec<DirEntry>>>>) -> (r: Result<
    Vec<DirEntry>,
    SandboxError,
>)
    ensures
        r == parsed_of(read, Topic::ReadDir),
{
    parsed_result(read, Topic::ReadDir)
}

/// What `stat` gives: the metadata of the file.
pub fn stat_result(read: Received<Answer<Option<FileStat>>>) -> (r: Result<FileStat, SandboxError>)
    ensures
        r == parsed_of(read, Topic::Stat),
{
    parsed_result(read, Topic::Stat)
}

/// What `mkdir`, `remove`, `rename`, `copy` and `chmod` give.
pub fn fs_result(read: Received<Answer<Option<Ack>>>) -> (r: Result<(), SandboxError>)
    ensures
        r == fs_of(read),
{
    match parsed_result(read, Topic::FsOp) {
        Ok(ack) => if ack.ok {
            Ok(())
        } else {
            Err(SandboxError::FsFailed { error: ack.error })
        },
        Err(e) => Err(e),
    }
}

/// What `write_file` gives.
pub fn write_file_result(read: Received<Option<Ack>>) -> (r: Result<(), SandboxError>)
    ensures
        r == write_of(read),
{
    match read {
        Received::Failed => Err(SandboxError::ReadFailed { topic: Topic::WriteFile }),
        Received::Closed => Err(SandboxError::GuestClosed { topic: Topic::WriteFile }),
        Received::Frame { frame } => match frame {
            None => Err(SandboxError::Unparsable { topic: Topic::WriteFile }),
            Some(ack) => if ack.ok {
                Ok(())
            } else {
                Err(SandboxError::WriteFailed { error: ack.error })
            },
        },
    }
}

/// What asking the guest to forward a port gives.
pub fn forward_result(read: Received<Option<ForwardResponse>>) -> (r: Result<(), SandboxError>)
    ensures
        r == forward_of(read),
{
    match read {
        Received::Failed => Err(SandboxError::ReadFailed { topic: Topic::Forward }),
        Received::Closed => Err(SandboxError::GuestClosed { topic: Topic::Forward }),
        Received::Frame { frame } => match frame {
            None => Err(SandboxError::Unparsable { topic: Topic::Forward }),
            Some(response) => if str_eq(response.status.as_str(), "ok") {
                Ok(())
            } else {
                Err(SandboxError::ForwardRefused { message: response.message })
            },
        },
    }
}

/// What the guest sends while a command runs.
pub enum ProcessFrame {
    Stdout { data: Vec<u8> },
    Stderr { data: Vec<u8> },
    /// The command has ended. The code is missing where the frame is garbled.
    Exit { code: Option<i32> },
    /// The guest could not run the command.
    Error { payload: Vec<u8> },
    Other,
}

/// What the output of a command is up to now.
pub struct ExecOutput {
    pub stdout: Vec<u8>,
    pub stderr: Vec<u8>,
}

/// What the output of a command is, as bytes of its two streams.
#[verifier::ext_equal]
pub struct OutputView {
    pub stdout: Seq<u8>,
    pub stderr: Seq<u8>,
}

impl View for ExecOutput {
    type V = OutputView;

    open spec fn view(&self) -> OutputView {
        OutputView { stdout: self.stdout@, stderr: self.stderr@ }
    }
}

/// The bytes that tell of an error of the guest.
pub open spec fn guest_error_bytes(payload: Seq<u8>) -> Seq<u8> {
    encode_utf8("guest error: "@ + lossy_text(payload))
}

/// The output of a command after one more frame.
pub open spec fn output_after(out: OutputView, read: Received<ProcessFrame>) -> OutputView {
    match read {
        Received::Frame { frame: ProcessFrame::Stdout { data } } => OutputView {
            stdout: out.stdout + data@,
            ..out
        },
        Received::Frame { frame: ProcessFrame::Stderr { data } } => OutputView {
            stderr: out.stderr + data@,
            ..out
        },
        Received::Frame { frame: ProcessFrame::Error { payload } } => OutputView {
            stderr: out.stderr + guest_error_bytes(payload@),
            ..out
        },
        _ => out,
    }
}

/// Whether a command is over after a frame, and with which exit code or error. A guest
/// that hangs up ends it with 0, and an error of the guest with 1.
pub open spec fn exit_after(read: Received<ProcessFrame>) -> Option<Result<i32, SandboxError>> {
    match read {
        Received::Failed => Some(Err(SandboxError::ReadFailed { topic: Topic::Exec })),
        Received::Closed => Some(Ok(0)),
        Received::Frame { frame: ProcessFrame::Exit { code } } => Some(
            Ok(
                match code {
                    Some(c) => c,
                    None => 0,
                },
            ),
        ),
        Received::Frame { frame: ProcessFrame::Error { .. } } => Some(Ok(1)),
        Received::Frame { .. } => None,
    }
}

/// The output of a command that sent those frames.
pub open spec fn output_of(frames: Seq<Received<ProcessFrame>>) -> OutputView
    decreases frames.len(),
{
    if frames.len() == 0 {
        OutputView { stdout: Seq::empty(), stderr: Seq::empty() }
    } else {
        output_after(output_of(frames.drop_last()), frames.last())
    }
}

/// One output after another.
pub open spec fn joined_output(a: OutputView, b: OutputView) -> OutputView {
    OutputView { stdout: a.stdout + b.stdout, stderr: a.stderr + b.stderr }
}

/// Output that is handed out piece by piece is, taken together, the output that is
/// collected to the end.
pub proof fn law_output_in_pieces(
    first: Seq<Received<ProcessFrame>>,
    second: Seq<Received<ProcessFrame>>,
)
    ensures
        output_of(first + second) == joined_output(output_of(first), output_of(second)),
    decreases second.len(),
{
    if second.len() == 0 {
        assert(first + second =~= first);
        assert(output_of(first + second) =~= joined_output(output_of(first), output_of(second)));
    } else {
        law_output_in_pieces(first, second.drop_last());
        assert((first + second).drop_last() =~= first + second.drop_last());
        assert((first + second).last() == second.last());
        assert(output_of(first + second) =~= joined_output(output_of(first), output_of(second)));
    }
}

impl ExecOutput {
    /// No output yet.
    pub fn new() -> (r: Self)
        ensures
            r@ == output_of(Seq::empty()),
    {
        let r = ExecOutput { stdout: Vec::new(), stderr: Vec::new() };
        assert(r@ =~= output_of(Seq::empty()));
        r
    }

    /// Takes a frame of a running command. The result says whether the command is over,
    /// and how.
    pub fn take(&mut self, read: Received<ProcessFrame>) -> (r: Option<Result<i32, SandboxError>>)
        ensures
            final(self)@ == output_after(old(self)@, read),
            r == exit_after(read),
    {
        match read {
            Received::Failed => Some(Err(SandboxError::ReadFailed { topic: Topic::Exec })),
            Received::Closed => Some(Ok(0)),
            Received::Frame { frame } => match frame {
                ProcessFrame::Stdout { data } => {
                    let mut data = data;
                    self.stdout.append(&mut data);
                    None
                },
                ProcessFrame::Stderr { data } => {
                    let mut data = data;
                    self.stderr.append(&mut data);
                    None
                },
                ProcessFrame::Exit { code } => match code {
                    Some(c) => Some(Ok(c)),
                    None => Some(Ok(0)),
                },
                ProcessFrame::Error { payload } => {
                    let message = cat("guest error: ", utf8_lossy(payload.as_slice()).as_str());
                    self.stderr.extend_from_slice(message.as_str().as_bytes());
                    Some(Ok(1))
                },
                ProcessFrame::Other => None,
            },
        }
    }

    /// Hands out what has been taken, to be written where it belongs.
    pub fn hand_out(&mut self) -> (r: ExecOutput)
        ensures
            r@ == old(self)@,
            final(self)@ == output_of(Seq::empty()),
    {
        let mut r = ExecOutput::new();
        std::mem::swap(&mut r.stdout, &mut self.stdout);
        std::mem::swap(&mut r.stderr, &mut self.stderr);
        assert(self@ =~= output_of(Seq::empty()));
        r
    }
}

/// What an interactive session does with a frame.
pub enum ShellStep {
    /// Show the data. It need not appear at once where more is about to come.
    Show { data: Vec<u8>, flush: bool },
    Ignore,
    /// The session is over. The message, if any, goes to standard error.
    Done { message: Option<String>, code: i32 },
}

/// Whether a frame makes an interactive session do that, where `more` says that
/// another frame has already begun to come in.
pub open spec fn is_shell_step(read: Received<ProcessFrame>, more: bool, r: ShellStep) -> bool {
    match read {
        Received::Failed | Received::Closed => r == (ShellStep::Done { message: None, code: 0 }),
        Received::Frame { frame: ProcessFrame::Stdout { data } } => r == (ShellStep::Show {
            data,
            flush: !more,
        }),
        Received::Frame { frame: ProcessFrame::Exit { code } } => r == (ShellStep::Done {
            message: None,
            code: match code {
                Some(c) => c,
                None => 0,
            },
        }),
        Received::Frame { frame: ProcessFrame::Error { payload } } => {
            r matches ShellStep::Done { message: Some(text), code } && code == 1 && text@
                == "guest error: "@ + lossy_text(payload@) + "\r\n"@
        },
        Received::Frame { .. } => r is Ignore,
    }
}

/// Decides what an interactive session does with a frame.
pub fn shell_step(read: Received<ProcessFrame>, more: bool) -> (r: ShellStep)
    ensures
        is_shell_step(read, more, r),
{
    match read {
        Received::Failed => ShellStep::Done { message: None, code: 0 },
        Received::Closed => ShellStep::Done { message: None, code: 0 },
        Received::Frame { frame } => match frame {
            ProcessFrame::Stdout { data } => ShellStep::Show { data, flush: !more },
            ProcessFrame::Exit { code } => match code {
                Some(c) => ShellStep::Done { message: None, code: c },
                None => ShellStep::Done { message: None, code: 0 },
            },
            ProcessFrame::Error { payload } => {
                let text = utf8_lossy(payload.as_slice());
                ShellStep::Done {
                    message: Some(cat3("guest error: ", text.as_str(), "\r\n")),
                    code: 1,
                }
            },
            ProcessFrame::Stderr { data: _ } => ShellStep::Ignore,
            ProcessFrame::Other => ShellStep::Ignore,
        },
    }
}

/// What the host's terminal has for an interactive session.
pub enum TerminalEvent {
    /// What was typed; nothing where the input has ended.
    Input { data: Vec<u8> },
    Resize { rows: u16, cols: u16 },
    Shutdown,
}

/// What an interactive session sends to the guest.
pub enum TerminalStep {
    Stdin { data: Vec<u8> },
    Resize { rows: u16, cols: u16 },
    /// Nothing more is sent.
    Stop,
}

/// Decides what an interactive session sends to the guest.
pub fn terminal_step(event: TerminalEvent) -> (r: TerminalStep)
    ensures
        match event {
            TerminalEvent::Input { data } => if data@.len() == 0 {
                r is Stop
            } else {
                r == (TerminalStep::Stdin { data })
            },
            TerminalEvent::Resize { rows, cols } => r == (TerminalStep::Resize { rows, cols }),
            TerminalEvent::Shutdown => r is Stop,
        },
{
    match event {
        TerminalEvent::Input { data } => if data.len() == 0 {
            TerminalStep::Stop
        } else {
            TerminalStep::Stdin { data }
        },
        TerminalEvent::Resize { rows, cols } => TerminalStep::Resize { rows, cols },
        TerminalEvent::Shutdown => TerminalStep::Stop,
    }
}

/// The states of a virtual machine that matter to its host.
#[derive(Debug, Clone, Copy, PartialEq, Eq, Structural)]
pub enum VmState {
    Stopped,
    Error,
    Other,
}

/// The host's attempts to reach a guest that is starting up.
pub struct Connector {
    attempt: u32,
}

impl Connector {
    #[verifier::type_invariant]
    spec fn attempts_are_limited(self) -> bool {
        1 <= self.attempt <= CONNECT_ATTEMPTS
    }

    /// The number of the attempt that comes next.
    pub closed spec fn attempt(self) -> nat {
        self.attempt as nat
    }

    /// Before the first attempt.
    pub fn new() -> (r: Self)
        ensures
            r.attempt() == 1,
    {
        Connector { attempt: 1 }
    }

    /// Decides whether to try, where the machine may have told its state.
    pub fn check(&self, state: Option<VmState>) -> (r: Result<(), SandboxError>)
        ensures
            r == (match state {
                Some(VmState::Stopped) => Err(SandboxError::StoppedDuringStartup),
                Some(VmState::Error) => Err(SandboxError::ErrorDuringStartup),
                _ => Ok(()),
            }),
    {
        match state {
            Some(VmState::Stopped) => Err(SandboxError::StoppedDuringStartup),
            Some(VmState::Error) => Err(SandboxError::ErrorDuringStartup),
            _ => Ok(()),
        }
    }

    /// Takes the failure of an attempt, and says how many milliseconds to wait for the
    /// next, or that there is none.
    pub fn failed(&mut self, cause: &str) -> (r: Result<u64, SandboxError>)
        ensures
            1 <= old(self).attempt() <= CONNECT_ATTEMPTS,
            if old(self).attempt() < CONNECT_ATTEMPTS {
                r == Ok::<u64, SandboxError>(CONNECT_WAIT_MS) && final(self).attempt()
                    == old(self).attempt() + 1
            } else {
                (r matches Err(SandboxError::ConnectFailed { attempts, cause: c }) && attempts
                    == CONNECT_ATTEMPTS && c@ == cause@) && final(self).attempt()
                    == old(self).attempt()
            },
    {
        proof {
            use_type_invariant(&*self);
        }
        if self.attempt < CONNECT_ATTEMPTS {
            self.attempt = self.attempt + 1;
            Ok(CONNECT_WAIT_MS)
        } else {
            Err(SandboxError::ConnectFailed { attempts: self.attempt, cause: cause.to_owned() })
        }
    }
}

/// The address that a port forward listens at.
pub open spec fn local_address_text(port: u16) -> Seq<char> {
    "127.0.0.1:"@ + decimal_text(port as nat)
}

/// The address on this host with that port.
pub fn local_address(port: u16) -> (r: String)
    ensures
        r@ == local_address_text(port),
{
    cat("127.0.0.1:", decimal(port as u64).as_str())
}

/// What a port forward announces when it starts.
pub fn forward_notice(mapping: &PortMapping) -> (r: String)
    ensures
        r@ == "shuru: forwarding "@ + local_address_text(mapping.host_port) + " -> guest:"@
            + decimal_text(mapping.guest_port as nat),
{
    let mut r = cat3("shuru: forwarding ", local_address(mapping.host_port).as_str(), " -> guest:");
    r.append(decimal(mapping.guest_port as u64).as_str());
    r
}

/// Why a port forward cannot start.
pub fn bind_error(mapping: &PortMapping) -> (r: String)
    ensures
        r@ == "Failed to bind port "@ + decimal_text(mapping.host_port as nat),
{
    cat("Failed to bind port ", decimal(mapping.host_port as u64).as_str())
}

/// The request that a forwarded connection begins with.
pub fn forward_request(mapping: &PortMapping) -> (r: GuestRequest)
    ensures
        r == (GuestRequest::Forward { port: mapping.guest_port }),
{
    GuestRequest::Forward { port: mapping.guest_port }
}

/// What looking for a connection at a listener gave.
#[derive(Debug, Clone, Copy, PartialEq, Eq, Structural)]
pub enum Accepted {
    Connection,
    /// There is none yet.
    WouldBlock,
    Failed,
}

/// What a listener does next.
#[derive(Debug, Clone, Copy, PartialEq, Eq, Structural)]
pub enum ListenerStep {
    /// Relay the connection to the guest.
    Relay,
    /// Look again after so many milliseconds.
    Wait { ms: u64 },
    Stop,
}

/// Decides what a listener does next, where `stopped` says that it was told to stop
/// before it looked.
pub fn listener_step(stopped: bool, accepted: Accepted) -> (r: ListenerStep)
    ensures
        r == (if stopped {
            ListenerStep::Stop
        } else {
            match accepted {
                Accepted::Connection => ListenerStep::Relay,
                Accepted::WouldBlock => ListenerStep::Wait { ms: ACCEPT_WAIT_MS },
                Accepted::Failed => ListenerStep::Stop,
            }
        }),
{
    if stopped {
        return ListenerStep::Stop;
    }
    match accepted {
        Accepted::Connection => ListenerStep::Relay,
        Accepted::WouldBlock => ListenerStep::Wait { ms: ACCEPT_WAIT_MS },
        Accepted::Failed => ListenerStep::Stop,
    }
}

/// A request to run a command carries the command, its variables and its directory as they
/// were given; on a terminal it carries the terminal's size, and otherwise nothing of one.
pub proof fn law_commands_are_asked_for_as_given(
    request: GuestRequest,
    argv: Seq<String>,
    env: Seq<(Seq<char>, String)>,
    cwd: Option<Seq<char>>,
    terminal: Option<(u16, u16)>,
)
    requires
        is_exec_request(request, argv, env, cwd, terminal),
    ensures
        request matches GuestRequest::Exec { request: r } && {
            &&& r.argv@ == argv
            &&& r.env@ == env
            &&& cwd is None <==> r.cwd is None
            &&& cwd matches Some(c) ==> (r.cwd matches Some(d) && d@ == c)
            &&& terminal is None ==> r.tty is None && r.rows is None && r.cols is None
            &&& terminal matches Some(size) ==> r.tty == Some(true) && r.rows == Some(size.0)
                && r.cols == Some(size.1)
        },
{
}

/// A conversation goes on only where the guest says that it has mounted the directory:
/// otherwise the error names the directory and the guest's reason.
pub proof fn law_mounts_have_to_succeed(
    read: Received<Option<Ack>>,
    mount: MountRequest,
    r: Result<(), SandboxError>,
)
    requires
        is_mount_result(read, mount, r),
    ensures
        r is Ok <==> (read matches Received::Frame { frame: Some(ack) } && ack.ok),
        read matches Received::Frame { frame: Some(ack) } ==> (!ack.ok ==> (r matches Err(
            SandboxError::MountFailed { tag, guest_path, error },
        ) && tag@ == mount.tag@ && guest_path@ == mount.guest_path@ && error == ack.error)),
        read matches Received::Frame { frame: None } ==> r == Err::<(), _>(
            SandboxError::MountUnsupported,
        ),
        read is Closed ==> r == Err::<(), _>(SandboxError::GuestClosed { topic: Topic::Mount }),
        read is Failed ==> r == Err::<(), _>(SandboxError::ReadFailed { topic: Topic::Mount }),
{
}

/// What the guest answers is handed on as it is, and nothing else is taken for an answer:
/// an error of the guest comes with the guest's words, a frame of another type with its
/// type, and a connection that breaks says so.
pub proof fn law_answers_are_handed_on<T>(read: Received<Answer<T>>, topic: Topic)
    ensures
        answer_of(read, topic) is Ok <==> (read matches Received::Frame { frame }
            && frame is Expected),
        read matches Received::Frame { frame: Answer::Expected { value } } ==> answer_of(read, topic)
            == Ok::<T, SandboxError>(value),
        read matches Received::Frame { frame: Answer::Error { payload } } ==> answer_of(read, topic)
            == Err::<T, _>(SandboxError::Guest { payload }),
        read matches Received::Frame { frame: Answer::Other { frame_type } } ==> answer_of(
            read,
            topic,
        ) == Err::<T, _>(SandboxError::UnexpectedFrame { topic, frame_type }),
        read is Closed ==> answer_of(read, topic) == Err::<T, _>(
            SandboxError::GuestClosed { topic },
        ),
        read is Failed ==> answer_of(read, topic) == Err::<T, _>(SandboxError::ReadFailed { topic }),
{
}

/// An answer that has to be parsed is the answer where it can be, and an error of its own
/// where it cannot.
pub proof fn law_garbled_answers_are_errors<T>(read: Received<Answer<Option<T>>>, topic: Topic)
    ensures
        read matches Received::Frame { frame: Answer::Expected { value } } ==> match value {
            Some(v) => parsed_of(read, topic) == Ok::<T, SandboxError>(v),
            None => parsed_of(read, topic) == Err::<T, _>(SandboxError::Unparsable { topic }),
        },
        answer_of(read, topic) is Err <==> !(read matches Received::Frame { frame }
            && frame is Expected),
        !(read matches Received::Frame { frame } && frame is Expected) ==> (answer_of(
            read,
            topic,
        ) matches Err(e) && parsed_of(read, topic) == Err::<T, _>(e)),
{
}

/// A change of the guest's files was made exactly where the guest says so, and otherwise
/// the error carries the guest's reason.
pub proof fn law_changes_are_acknowledged(read: Received<Answer<Option<Ack>>>)
    ensures
        fs_of(read) is Ok <==> (read matches Received::Frame {
            frame: Answer::Expected { value: Some(ack) },
        } && ack.ok),
        read matches Received::Frame { frame: Answer::Expected { value: Some(ack) } } ==> (!ack.ok
            ==> fs_of(read) == Err::<(), _>(SandboxError::FsFailed { error: ack.error })),
        read matches Received::Frame { frame: Answer::Error { payload } } ==> fs_of(read) == Err::<
            (),
            _,
        >(SandboxError::Guest { payload }),
        read is Closed ==> fs_of(read) == Err::<(), _>(
            SandboxError::GuestClosed { topic: Topic::FsOp },
        ),
{
}

/// A file was written exactly where the guest says so, and otherwise the error carries the
/// guest's reason.
pub proof fn law_writes_are_acknowledged(read: Received<Option<Ack>>)
    ensures
        write_of(read) is Ok <==> (read matches Received::Frame { frame: Some(ack) } && ack.ok),
        read matches Received::Frame { frame: Some(ack) } ==> (!ack.ok ==> write_of(read) == Err::<
            (),
            _,
        >(SandboxError::WriteFailed { error: ack.error })),
        read matches Received::Frame { frame: None } ==> write_of(read) == Err::<(), _>(
            SandboxError::Unparsable { topic: Topic::WriteFile },
        ),
        read is Closed ==> write_of(read) == Err::<(), _>(
            SandboxError::GuestClosed { topic: Topic::WriteFile },
        ),
        read is Failed ==> write_of(read) == Err::<(), _>(
            SandboxError::ReadFailed { topic: Topic::WriteFile },
        ),
{
}

/// A port is forwarded exactly where the guest answers "ok", and otherwise the error
/// carries the guest's message.
pub proof fn law_forwards_are_acknowledged(read: Received<Option<ForwardResponse>>)
    ensures
        forward_of(read) is Ok <==> (read matches Received::Frame { frame: Some(response) }
            && response.status@ == "ok"@),
        read matches Received::Frame { frame: Some(response) } ==> (response.status@ != "ok"@
            ==> forward_of(read) == Err::<(), _>(
            SandboxError::ForwardRefused { message: response.message },
        )),
        read matches Received::Frame { frame: None } ==> forward_of(read) == Err::<(), _>(
            SandboxError::Unparsable { topic: Topic::Forward },
        ),
        read is Closed ==> forward_of(read) == Err::<(), _>(
            SandboxError::GuestClosed { topic: Topic::Forward },
        ),
        read is Failed ==> forward_of(read) == Err::<(), _>(
            SandboxError::ReadFailed { topic: Topic::Forward },
        ),
{
}

/// What a command writes is collected as it comes, each stream for itself: a frame of one
/// stream appends its bytes to that stream and leaves the other alone, an error of the
/// guest is told on standard error, and no other frame adds anything.
pub proof fn law_output_is_collected_by_stream(
    frames: Seq<Received<ProcessFrame>>,
    read: Received<ProcessFrame>,
)
    ensures
        ({
            let before = output_of(frames);
            let after = output_of(frames.push(read));
            match read {
                Received::Frame { frame: ProcessFrame::Stdout { data } } => after.stdout
                    == before.stdout + data@ && after.stderr == before.stderr,
                Received::Frame { frame: ProcessFrame::Stderr { data } } => after.stderr
                    == before.stderr + data@ && after.stdout == before.stdout,
                Received::Frame { frame: ProcessFrame::Error { payload } } => after.stdout
                    == before.stdout && after.stderr == before.stderr + encode_utf8(
                    "guest error: "@ + lossy_text(payload@),
                ),
                _ => after.stdout == before.stdout && after.stderr == before.stderr,
            }
        }),
        output_of(Seq::empty()).stdout.len() == 0,
        output_of(Seq::empty()).stderr.len() == 0,
{
    assert(frames.push(read).drop_last() =~= frames);
}

/// A command goes on until it exits, the guest reports an error or the connection ends:
/// the exit code is the command's, 1 for an error of the guest, and 0 where the code is
/// garbled or the guest hangs up.
pub proof fn law_commands_end_with_their_code(read: Received<ProcessFrame>)
    ensures
        exit_after(read) is None <==> (read matches Received::Frame { frame } && (frame is Stdout
            || frame is Stderr || frame is Other)),
        read matches Received::Frame { frame: ProcessFrame::Exit { code: Some(c) } }
            ==> exit_after(read) == Some(Ok::<i32, SandboxError>(c)),
        read matches Received::Frame { frame: ProcessFrame::Exit { code: None } } ==> exit_after(
            read,
        ) == Some(Ok::<i32, SandboxError>(0)),
        read matches Received::Frame { frame: ProcessFrame::Error { .. } } ==> exit_after(read)
            == Some(Ok::<i32, SandboxError>(1)),
        read is Closed ==> exit_after(read) == Some(Ok::<i32, SandboxError>(0)),
        read is Failed ==> exit_after(read) == Some(
            Err::<i32, SandboxError>(SandboxError::ReadFailed { topic: Topic::Exec }),
        ),
{
}

/// A session on a terminal shows what the command writes as it came, and at once unless
/// more is about to come; it ends where the command does, with the command's code, and
/// tells of an error of the guest.
pub proof fn law_terminals_show_what_came(
    read: Received<ProcessFrame>,
    more: bool,
    r: ShellStep,
)
    requires
        is_shell_step(read, more, r),
    ensures
        r is Show <==> (read matches Received::Frame { frame } && frame is Stdout),
        r is Ignore <==> (read matches Received::Frame { frame } && (frame is Stderr
            || frame is Other)),
        read matches Received::Frame { frame: ProcessFrame::Stdout { data } } ==> (
        r matches ShellStep::Show { data: d, flush } && d@ == data@ && flush == !more),
        read matches Received::Frame { frame: ProcessFrame::Exit { code } } ==> (
        r matches ShellStep::Done { message, code: c } && message is None && c == (match code {
            Some(x) => x,
            None => 0,
        })),
        read matches Received::Frame { frame: ProcessFrame::Error { payload } } ==> (
        r matches ShellStep::Done { message: Some(text), code } && code == 1 && text@
            == "guest error: "@ + lossy_text(payload@) + "\r\n"@),
        read is Closed || read is Failed ==> (r matches ShellStep::Done { message, code }
            && message is None && code == 0),
{
}

/// A port of this host is reached at the loopback address, and no two ports at the same.
pub proof fn law_ports_have_their_own_addresses(a: u16, b: u16)
    ensures
        local_address_text(a) == "127.0.0.1:"@ + decimal_text(a as nat),
        a != b ==> local_address_text(a) != local_address_text(b),
{
    let n = "127.0.0.1:"@.len() as int;
    assert(local_address_text(a).skip(n) =~= decimal_text(a as nat));
    assert(local_address_text(b).skip(n) =~= decimal_text(b as nat));
    if decimal_text(a as nat) == decimal_text(b as nat) {
        lemma_radix_text_injective(a as nat, b as nat, 10);
    }
}

/// A guest that is starting up is tried 50 times, 200 ms apart, and a listener looks for
/// connections every 50 ms.
pub proof fn law_guests_get_time_to_start()
    ensures
        CONNECT_ATTEMPTS == 50,
        CONNECT_WAIT_MS == 200,
        ACCEPT_WAIT_MS == 50,
{
}

} // verus!
