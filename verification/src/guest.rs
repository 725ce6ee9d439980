//! What the host and the guest say to each other, and what can go wrong.

use crate::encoding::{lossy_text, utf8_lossy};
use crate::string_map::StringMap;
use crate::text::{cat, cat3, decimal, decimal_text, hex, hex_text};
use vstd::prelude::*;

verus! {

/// A host port that leads to a guest port.
#[derive(Debug, Clone, Copy, PartialEq, Eq, Structural)]
pub struct PortMapping {
    pub host_port: u16,
    pub guest_port: u16,
}

/// Asks the guest to mount a shared directory.
#[derive(Debug)]
pub struct MountRequest {
    /// The tag of the shared directory's device.
    pub tag: String,
    pub guest_path: String,
    /// Guest writes go to an overlay and are lost, and the host stays untouched.
    pub read_only: bool,
}

/// Asks the guest to run a command.
pub struct ExecRequest {
    pub argv: Vec<String>,
    pub env: StringMap<String>,
    pub tty: Option<bool>,
    pub rows: Option<u16>,
    pub cols: Option<u16>,
    pub cwd: Option<String>,
}

/// A request to the guest.
pub enum GuestRequest {
    Exec { request: ExecRequest },
    ReadFile { path: String },
    /// `len` announces the length of the content that follows.
    WriteFile { path: String, len: u64, content: Vec<u8> },
    Mkdir { path: String, recursive: bool },
    ReadDir { path: String },
    Stat { path: String },
    Remove { path: String, recursive: bool },
    Rename { old_path: String, new_path: String },
    Copy { src: String, dst: String, recursive: bool },
    Chmod { path: String, mode: u32 },
    Watch { path: String, recursive: bool },
    Forward { port: u16 },
}

/// The guest's word on whether it did what was asked.
#[derive(Debug)]
pub struct Ack {
    pub ok: bool,
    pub error: Option<String>,
}

/// The guest's word on a port forward.
#[derive(Debug)]
pub struct ForwardResponse {
    pub status: String,
    pub message: Option<String>,
}

/// One entry of a directory in the guest.
#[derive(Debug)]
pub struct DirEntry {
    pub name: String,
    pub entry_type: String,
    pub size: u64,
}

/// The metadata of a file in the guest.
#[derive(Debug, Clone, Copy)]
pub struct FileStat {
    pub size: u64,
    pub mode: u32,
    pub mtime: u64,
    pub is_dir: bool,
    pub is_file: bool,
    pub is_symlink: bool,
}

/// A change to a watched file.
#[derive(Debug)]
pub struct WatchEvent {
    pub path: String,
    pub event: String,
}

/// What waiting for a frame gave.
pub enum Received<T> {
    /// The connection cannot be read.
    Failed,
    /// The guest closed the connection.
    Closed,
    Frame { frame: T },
}

/// The frame that answers a request.
pub enum Answer<T> {
    /// The frame type that the request asks for.
    Expected { value: T },
    /// The guest reports an error.
    Error { payload: Vec<u8> },
    /// A frame of another type.
    Other { frame_type: u8 },
}

/// What a request was for, as error messages name it.
#[derive(Debug, Clone, Copy, PartialEq, Eq, Structural)]
pub enum Topic {
    Mount,
    Exec,
    ReadFile,
    WriteFile,
    FsOp,
    ReadDir,
    Stat,
    Forward,
}

/// Why the sandbox could not do what was asked.
#[derive(Debug)]
pub enum SandboxError {
    KernelMissing,
    RootfsMissing,
    Unsupported,
    /// The response cannot be read.
    ReadFailed { topic: Topic },
    /// The guest closed the connection instead of answering.
    GuestClosed { topic: Topic },
    /// The response is not what the protocol says.
    Unparsable { topic: Topic },
    /// The guest says why it failed.
    Guest { payload: Vec<u8> },
    UnexpectedFrame { topic: Topic, frame_type: u8 },
    MountUnsupported,
    MountFailed { tag: String, guest_path: String, error: Option<String> },
    WriteFailed { error: Option<String> },
    FsFailed { error: Option<String> },
    ForwardRefused { message: Option<String> },
    StoppedDuringStartup,
    ErrorDuringStartup,
    ConnectFailed { attempts: u32, cause: String },
}

/// The guest's reason, if it gave one.
pub open spec fn reason_text(error: Option<String>) -> Seq<char> {
    match error {
        Some(e) => e@,
        None => "unknown error"@,
    }
}

/// What the response could not be read as.
pub open spec fn reading_text(topic: Topic) -> Seq<char> {
    match topic {
        Topic::Mount => "reading mount response"@,
        Topic::Exec => "reading vsock response"@,
        Topic::ReadFile => "reading read_file response"@,
        Topic::WriteFile => "reading write_file response"@,
        Topic::FsOp => "reading fs op response"@,
        Topic::ReadDir => "reading read_dir response"@,
        Topic::Stat => "reading stat response"@,
        Topic::Forward => "reading forward response"@,
    }
}

/// What a closed connection cut short.
pub open spec fn closed_text(topic: Topic) -> Seq<char> {
    match topic {
        Topic::Mount => "guest closed connection during mount init"@,
        Topic::Exec => "guest closed connection"@,
        Topic::ReadFile => "guest closed connection during read_file"@,
        Topic::WriteFile => "guest closed connection during write_file"@,
        Topic::FsOp => "guest closed connection"@,
        Topic::ReadDir => "guest closed connection during read_dir"@,
        Topic::Stat => "guest closed connection during stat"@,
        Topic::Forward => "guest closed connection during forward handshake"@,
    }
}

/// What could not be parsed.
pub open spec fn parsing_text(topic: Topic) -> Seq<char> {
    match topic {
        Topic::Mount => "parsing mount response"@,
        Topic::Exec => "parsing vsock response"@,
        Topic::ReadFile => "parsing read_file response"@,
        Topic::WriteFile => "parsing write_file response"@,
        Topic::FsOp => "parsing fs ok response"@,
        Topic::ReadDir => "parsing read_dir response"@,
        Topic::Stat => "parsing stat response"@,
        Topic::Forward => "parsing forward response"@,
    }
}

/// Where an unexpected frame came.
pub open spec fn unexpected_text(topic: Topic) -> Seq<char> {
    match topic {
        Topic::Mount => " in mount response"@,
        Topic::Exec => " in vsock response"@,
        Topic::ReadFile => " in read_file response"@,
        Topic::WriteFile => " in write_file response"@,
        Topic::FsOp => ""@,
        Topic::ReadDir => " in read_dir response"@,
        Topic::Stat => " in stat response"@,
        Topic::Forward => " in forward response"@,
    }
}

/// The message of an error.
pub open spec fn sandbox_error_text(e: SandboxError) -> Seq<char> {
    match e {
        SandboxError::KernelMissing => "kernel path is required"@,
        SandboxError::RootfsMissing => "rootfs path is required"@,
        SandboxError::Unsupported => "Virtualization is not supported on this machine"@,
        SandboxError::ReadFailed { topic } => reading_text(topic),
        SandboxError::GuestClosed { topic } => closed_text(topic),
        SandboxError::Unparsable { topic } => parsing_text(topic),
        SandboxError::Guest { payload } => lossy_text(payload@),
        SandboxError::UnexpectedFrame { topic, frame_type } => "unexpected frame type 0x"@
            + hex_text(frame_type as nat, 2) + unexpected_text(topic),
        SandboxError::MountUnsupported =>
            "guest does not support directory mounts. Run `shuru upgrade` and recreate the checkpoint to enable --mount."@,
        SandboxError::MountFailed { tag, guest_path, error } => "mount failed: "@ + tag@ + " -> "@
            + guest_path@ + ": "@ + reason_text(error),
        SandboxError::WriteFailed { error } => "write_file failed: "@ + reason_text(error),
        SandboxError::FsFailed { error } => reason_text(error),
        SandboxError::ForwardRefused { message } => "guest refused forward: "@ + (match message {
            Some(m) => m@,
            None => Seq::empty(),
        }),
        SandboxError::StoppedDuringStartup =>
            "VM stopped during startup - check boot output above for errors"@,
        SandboxError::ErrorDuringStartup => "VM encountered an error during startup"@,
        SandboxError::ConnectFailed { attempts, cause } => "Failed to connect to guest after "@
            + decimal_text(attempts as nat) + " attempts: "@ + cause@,
    }
}

fn reason(error: &Option<String>) -> (r: String)
    ensures
        r@ == reason_text(*error),
{
    match error {
        Some(e) => e.clone(),
        None => "unknown error".to_owned(),
    }
}

impl SandboxError {
    /// The message of this error.
    pub fn to_string(&self) -> (r: String)
        ensures
            r@ == sandbox_error_text(*self),
    {
        match self {
            SandboxError::KernelMissing => "kernel path is required".to_owned(),
            SandboxError::RootfsMissing => "rootfs path is required".to_owned(),
            SandboxError::Unsupported => "Virtualization is not supported on this machine".to_owned(),
            SandboxError::ReadFailed { topic } => match topic {
                Topic::Mount => "reading mount response".to_owned(),
                Topic::Exec => "reading vsock response".to_owned(),
                Topic::ReadFile => "reading read_file response".to_owned(),
                Topic::WriteFile => "reading write_file response".to_owned(),
                Topic::FsOp => "reading fs op response".to_owned(),
                Topic::ReadDir => "reading read_dir response".to_owned(),
                Topic::Stat => "reading stat response".to_owned(),
                Topic::Forward => "reading forward response".to_owned(),
            },
            SandboxError::GuestClosed { topic } => match topic {
                Topic::Mount => "guest closed connection during mount init".to_owned(),
                Topic::Exec => "guest closed connection".to_owned(),
                Topic::ReadFile => "guest closed connection during read_file".to_owned(),
                Topic::WriteFile => "guest closed connection during write_file".to_owned(),
                Topic::FsOp => "guest closed connection".to_owned(),
                Topic::ReadDir => "guest closed connection during read_dir".to_owned(),
                Topic::Stat => "guest closed connection during stat".to_owned(),
                Topic::Forward => "guest closed connection during forward handshake".to_owned(),
            },
            SandboxError::Unparsable { topic } => match topic {
                Topic::Mount => "parsing mount response".to_owned(),
                Topic::Exec => "parsing vsock response".to_owned(),
                Topic::ReadFile => "parsing read_file response".to_owned(),
                Topic::WriteFile => "parsing write_file response".to_owned(),
                Topic::FsOp => "parsing fs ok response".to_owned(),
                Topic::ReadDir => "parsing read_dir response".to_owned(),
                Topic::Stat => "parsing stat response".to_owned(),
                Topic::Forward => "parsing forward response".to_owned(),
            },
            SandboxError::Guest { payload } => utf8_lossy(payload.as_slice()),
            SandboxError::UnexpectedFrame { topic, frame_type } => {
                let place = match topic {
                    Topic::Mount => " in mount response",
                    Topic::Exec => " in vsock response",
                    Topic::ReadFile => " in read_file response",
                    Topic::WriteFile => " in write_file response",
                    Topic::FsOp => "",
                    Topic::ReadDir => " in read_dir response",
                    Topic::Stat => " in stat response",
                    Topic::Forward => " in forward response",
                };
                cat3("unexpected frame type 0x", hex(*frame_type as u64, 2).as_str(), place)
            },
            SandboxError::MountUnsupported =>
                "guest does not support directory mounts. Run `shuru upgrade` and recreate the checkpoint to enable --mount.".to_owned(),
            SandboxError::MountFailed { tag, guest_path, error } => {
                let mut r = cat3("mount failed: ", tag.as_str(), " -> ");
                r.append(guest_path.as_str());
                r.append(": ");
                r.append(reason(error).as_str());
                r
            },
            SandboxError::WriteFailed { error } => cat(
                "write_file failed: ",
                reason(error).as_str(),
            ),
            SandboxError::FsFailed { error } => reason(error),
            SandboxError::ForwardRefused { message } => match message {
                Some(m) => cat("guest refused forward: ", m.as_str()),
                None => {
                    let r = "guest refused forward: ".to_owned();
                    assert(r@ =~= "guest refused forward: "@ + Seq::<char>::empty());
                    r
                },
            },
            SandboxError::StoppedDuringStartup =>
                "VM stopped during startup - check boot output above for errors".to_owned(),
            SandboxError::ErrorDuringStartup => "VM encountered an error during startup".to_owned(),
            SandboxError::ConnectFailed { attempts, cause } => {
                let mut r = cat3(
                    "Failed to connect to guest after ",
                    decimal(*attempts as u64).as_str(),
                    " attempts: ",
                );
                r.append(cause.as_str());
                r
            },
        }
    }
}

/// What the guest says of a failure is what the host reports of it, behind the words that
/// say what failed.
pub proof fn law_the_guests_reason_is_reported(error: Option<String>, tag: String, path: String)
    ensures
        ({
            let reason = match error {
                Some(e) => e@,
                None => "unknown error"@,
            };
            &&& sandbox_error_text(SandboxError::FsFailed { error }) == reason
            &&& sandbox_error_text(SandboxError::WriteFailed { error }) == "write_file failed: "@
                + reason
            &&& sandbox_error_text(
                SandboxError::MountFailed { tag, guest_path: path, error },
            ) == "mount failed: "@ + tag@ + " -> "@ + path@ + ": "@ + reason
        }),
{
}

/// An error of the guest is reported in the guest's own words, a frame of the wrong type
/// with its type in hexadecimal, and a guest that cannot be reached with the number of
/// attempts and the cause of the last.
pub proof fn law_failures_are_reported(
    payload: Vec<u8>,
    topic: Topic,
    frame_type: u8,
    attempts: u32,
    cause: String,
    message: Option<String>,
)
    ensures
        sandbox_error_text(SandboxError::Guest { payload }) == lossy_text(payload@),
        exists|place: Seq<char>|
            sandbox_error_text(SandboxError::UnexpectedFrame { topic, frame_type })
                == #[trigger] ("unexpected frame type 0x"@ + hex_text(frame_type as nat, 2)
                + place),
        sandbox_error_text(SandboxError::ConnectFailed { attempts, cause })
            == "Failed to connect to guest after "@ + decimal_text(attempts as nat)
            + " attempts: "@ + cause@,
        sandbox_error_text(SandboxError::ForwardRefused { message }) == "guest refused forward: "@
            + (match message {
            Some(m) => m@,
            None => Seq::empty(),
        }),
{
    let place = unexpected_text(topic);
    assert(sandbox_error_text(SandboxError::UnexpectedFrame { topic, frame_type }) == (
    "unexpected frame type 0x"@ + hex_text(frame_type as nat, 2) + place));
}

/// A message says what failed and what it was about.
pub proof fn law_messages_name_the_operation(topic: Topic, frame_type: u8, n: u32, t: String)
    ensures
        ({
            let name = match topic {
                Topic::Mount => "mount"@,
                Topic::Exec => "vsock"@,
                Topic::ReadFile => "read_file"@,
                Topic::WriteFile => "write_file"@,
                Topic::FsOp => "fs op"@,
                Topic::ReadDir => "read_dir"@,
                Topic::Stat => "stat"@,
                Topic::Forward => "forward"@,
            };
            let during = match topic {
                Topic::Mount => " during mount init"@,
                Topic::Forward => " during forward handshake"@,
                Topic::Exec => ""@,
                Topic::FsOp => ""@,
                _ => " during "@ + name,
            };
            &&& sandbox_error_text(SandboxError::ReadFailed { topic }) == "reading "@ + name
                + " response"@
            &&& sandbox_error_text(SandboxError::GuestClosed { topic })
                == "guest closed connection"@ + during
            &&& sandbox_error_text(SandboxError::Unparsable { topic }) == "parsing "@ + (
            if topic is FsOp {
                "fs ok"@
            } else {
                name
            }) + " response"@
            &&& sandbox_error_text(SandboxError::UnexpectedFrame { topic, frame_type })
                == "unexpected frame type 0x"@ + hex_text(frame_type as nat, 2) + (
            if topic is FsOp {
                ""@
            } else {
                " in "@ + name + " response"@
            })
            &&& sandbox_error_text(SandboxError::ConnectFailed { attempts: n, cause: t })
                == "Failed to connect to guest after "@ + decimal_text(n as nat) + " attempts: "@
                + t@
            &&& sandbox_error_text(SandboxError::WriteFailed { error: Some(t) })
                == "write_file failed: "@ + t@
            &&& sandbox_error_text(SandboxError::ForwardRefused { message: Some(t) })
                == "guest refused forward: "@ + t@
        }),
{
    reveal_strlit("reading ");
    reveal_strlit(" response");
    reveal_strlit("guest closed connection");
    reveal_strlit(" during ");
    reveal_strlit("parsing ");
    reveal_strlit(" in ");
    reveal_strlit("");
    match topic {
        Topic::Mount => {
            reveal_strlit("mount");
            reveal_strlit("reading mount response");
            reveal_strlit("parsing mount response");
            reveal_strlit("guest closed connection during mount init");
            reveal_strlit(" during mount init");
            reveal_strlit(" in mount response");
            assert("reading mount response"@ =~= "reading "@ + "mount"@ + " response"@);
            assert("parsing mount response"@ =~= "parsing "@ + "mount"@ + " response"@);
            assert("guest closed connection during mount init"@ =~= "guest closed connection"@ + " during mount init"@);
            assert(" in mount response"@ =~= " in "@ + "mount"@ + " response"@);
        },
        Topic::Exec => {
            reveal_strlit("vsock");
            reveal_strlit("reading vsock response");
            reveal_strlit("parsing vsock response");
            reveal_strlit(" in vsock response");
            assert("reading vsock response"@ =~= "reading "@ + "vsock"@ + " response"@);
            assert("parsing vsock response"@ =~= "parsing "@ + "vsock"@ + " response"@);
            assert("guest closed connection"@ =~= "guest closed connection"@ + ""@);
            assert(" in vsock response"@ =~= " in "@ + "vsock"@ + " response"@);
        },
        Topic::ReadFile => {
            reveal_strlit("read_file");
            reveal_strlit("reading read_file response");
            reveal_strlit("parsing read_file response");
            reveal_strlit("guest closed connection during read_file");
            reveal_strlit(" in read_file response");
            assert("reading read_file response"@ =~= "reading "@ + "read_file"@ + " response"@);
            assert("parsing read_file response"@ =~= "parsing "@ + "read_file"@ + " response"@);
            assert("guest closed connection during read_file"@ =~= "guest closed connection"@ + (" during "@ + "read_file"@));
            assert(" in read_file response"@ =~= " in "@ + "read_file"@ + " response"@);
        },
        Topic::WriteFile => {
            reveal_strlit("write_file");
            reveal_strlit("reading write_file response");
            reveal_strlit("parsing write_file response");
            reveal_strlit("guest closed connection during write_file");
            reveal_strlit(" in write_file response");
            assert("reading write_file response"@ =~= "reading "@ + "write_file"@ + " response"@);
            assert("parsing write_file response"@ =~= "parsing "@ + "write_file"@ + " response"@);
            assert("guest closed connection during write_file"@ =~= "guest closed connection"@ + (" during "@ + "write_file"@));
            assert(" in write_file response"@ =~= " in "@ + "write_file"@ + " response"@);
        },
        Topic::FsOp => {
            reveal_strlit("fs op");
            reveal_strlit("fs ok");
            reveal_strlit("reading fs op response");
            reveal_strlit("parsing fs ok response");
            assert("reading fs op response"@ =~= "reading "@ + "fs op"@ + " response"@);
            assert("parsing fs ok response"@ =~= "parsing "@ + "fs ok"@ + " response"@);
            assert("guest closed connection"@ =~= "guest closed connection"@ + ""@);
        },
        Topic::ReadDir => {
            reveal_strlit("read_dir");
            reveal_strlit("reading read_dir response");
            reveal_strlit("parsing read_dir response");
            reveal_strlit("guest closed connection during read_dir");
            reveal_strlit(" in read_dir response");
            assert("reading read_dir response"@ =~= "reading "@ + "read_dir"@ + " response"@);
            assert("parsing read_dir response"@ =~= "parsing "@ + "read_dir"@ + " response"@);
            assert("guest closed connection during read_dir"@ =~= "guest closed connection"@ + (" during "@ + "read_dir"@));
            assert(" in read_dir response"@ =~= " in "@ + "read_dir"@ + " response"@);
        },
        Topic::Stat => {
            reveal_strlit("stat");
            reveal_strlit("reading stat response");
            reveal_strlit("parsing stat response");
            reveal_strlit("guest closed connection during stat");
            reveal_strlit(" in stat response");
            assert("reading stat response"@ =~= "reading "@ + "stat"@ + " response"@);
            assert("parsing stat response"@ =~= "parsing "@ + "stat"@ + " response"@);
            assert("guest closed connection during stat"@ =~= "guest closed connection"@ + (" during "@ + "stat"@));
            assert(" in stat response"@ =~= " in "@ + "stat"@ + " response"@);
        },
        Topic::Forward => {
            reveal_strlit("forward");
            reveal_strlit("reading forward response");
            reveal_strlit("parsing forward response");
            reveal_strlit("guest closed connection during forward handshake");
            reveal_strlit(" during forward handshake");
            reveal_strlit(" in forward response");
            assert("reading forward response"@ =~= "reading "@ + "forward"@ + " response"@);
            assert("parsing forward response"@ =~= "parsing "@ + "forward"@ + " response"@);
            assert("guest closed connection during forward handshake"@ =~= "guest closed connection"@ + " during forward handshake"@);
            assert(" in forward response"@ =~= " in "@ + "forward"@ + " response"@);
        },
    }
}

} // verus!
