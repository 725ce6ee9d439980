//! The JSON-RPC 2.0 session that an SDK drives over standard input and output.
//!
//! The session reads requests line by line. Each is answered at once, or turned
//! into an [`Action`] on the sandbox whose outcome then makes the answer. Guest
//! processes and file watches report through [`Event`]s, which go out as
//! notifications.

use crate::encoding::{
    base64_data, base64_decode, base64_encode, base64_fits, base64_text, decodes_to, lossy_text,
    utf8_lossy,
};
use crate::guest::{Answer, DirEntry, FileStat, Received, WatchEvent};
use crate::sandbox::{ExecOutput, ProcessFrame};
use crate::string_map::{
    copied, distinct_keys, key_index, lemma_key_index, lemma_key_index_is, lemma_read_after_store,
    value_of, with_entries, StringMap,
};
use crate::text::{
    cat, decimal, decimal_text, lemma_radix_text_injective, str_eq, texts, trim, trimmed,
};
use vstd::prelude::*;

verus! {

/// The request was not JSON-RPC.
pub const PARSE_ERROR: i32 = -32700;

/// The method does not exist.
pub const METHOD_NOT_FOUND: i32 = -32601;

/// The parameters do not fit the method.
pub const INVALID_PARAMS: i32 = -32602;

/// The sandbox failed to do what was asked.
pub const SERVER_ERROR: i32 = -32000;

/// What a request can ask for.
#[derive(Debug, Clone, Copy, PartialEq, Eq, Structural)]
pub enum Method {
    Exec,
    Spawn,
    Kill,
    Input,
    Watch,
    ReadFile,
    WriteFile,
    Checkpoint,
    Mkdir,
    ReadDir,
    Stat,
    Remove,
    Rename,
    Copy,
    Chmod,
}

/// The name of a method on the wire.
pub open spec fn method_text(m: Method) -> Seq<char> {
    match m {
        Method::Exec => "exec"@,
        Method::Spawn => "spawn"@,
        Method::Kill => "kill"@,
        Method::Input => "input"@,
        Method::Watch => "watch"@,
        Method::ReadFile => "read_file"@,
        Method::WriteFile => "write_file"@,
        Method::Checkpoint => "checkpoint"@,
        Method::Mkdir => "mkdir"@,
        Method::ReadDir => "read_dir"@,
        Method::Stat => "stat"@,
        Method::Remove => "remove"@,
        Method::Rename => "rename"@,
        Method::Copy => "copy"@,
        Method::Chmod => "chmod"@,
    }
}

/// The method of that name, if there is one.
pub open spec fn method_named(name: Seq<char>) -> Option<Method> {
    if name == "exec"@ {
        Some(Method::Exec)
    } else if name == "spawn"@ {
        Some(Method::Spawn)
    } else if name == "kill"@ {
        Some(Method::Kill)
    } else if name == "input"@ {
        Some(Method::Input)
    } else if name == "watch"@ {
        Some(Method::Watch)
    } else if name == "read_file"@ {
        Some(Method::ReadFile)
    } else if name == "write_file"@ {
        Some(Method::WriteFile)
    } else if name == "checkpoint"@ {
        Some(Method::Checkpoint)
    } else if name == "mkdir"@ {
        Some(Method::Mkdir)
    } else if name == "read_dir"@ {
        Some(Method::ReadDir)
    } else if name == "stat"@ {
        Some(Method::Stat)
    } else if name == "remove"@ {
        Some(Method::Remove)
    } else if name == "rename"@ {
        Some(Method::Rename)
    } else if name == "copy"@ {
        Some(Method::Copy)
    } else if name == "chmod"@ {
        Some(Method::Chmod)
    } else {
        None
    }
}

/// A method is found under its own name, and under no other.
pub proof fn law_method_names(m: Method, name: Seq<char>)
    ensures
        method_named(name) == Some(m) <==> name == method_text(m),
{
    reveal_strlit("exec");
    reveal_strlit("spawn");
    reveal_strlit("kill");
    reveal_strlit("input");
    reveal_strlit("watch");
    reveal_strlit("read_file");
    reveal_strlit("write_file");
    reveal_strlit("checkpoint");
    reveal_strlit("mkdir");
    reveal_strlit("read_dir");
    reveal_strlit("stat");
    reveal_strlit("remove");
    reveal_strlit("rename");
    reveal_strlit("copy");
    reveal_strlit("chmod");
    let own = method_text(m);
    assert(name == own ==> name.len() == own.len() && name[0] == own[0] && name[1] == own[1]
        && name[2] == own[2] && name[3] == own[3]);
}

impl Method {
    /// The name of this method on the wire.
    pub fn name(self) -> (r: &'static str)
        ensures
            r@ == method_text(self),
    {
        match self {
            Method::Exec => "exec",
            Method::Spawn => "spawn",
            Method::Kill => "kill",
            Method::Input => "input",
            Method::Watch => "watch",
            Method::ReadFile => "read_file",
            Method::WriteFile => "write_file",
            Method::Checkpoint => "checkpoint",
            Method::Mkdir => "mkdir",
            Method::ReadDir => "read_dir",
            Method::Stat => "stat",
            Method::Remove => "remove",
            Method::Rename => "rename",
            Method::Copy => "copy",
            Method::Chmod => "chmod",
        }
    }

    /// The method of that name, if there is one.
    pub fn from_name(name: &str) -> (r: Option<Method>)
        ensures
            r == method_named(name@),
    {
        if str_eq(name, "exec") {
            Some(Method::Exec)
        } else if str_eq(name, "spawn") {
            Some(Method::Spawn)
        } else if str_eq(name, "kill") {
            Some(Method::Kill)
        } else if str_eq(name, "input") {
            Some(Method::Input)
        } else if str_eq(name, "watch") {
            Some(Method::Watch)
        } else if str_eq(name, "read_file") {
            Some(Method::ReadFile)
        } else if str_eq(name, "write_file") {
            Some(Method::WriteFile)
        } else if str_eq(name, "checkpoint") {
            Some(Method::Checkpoint)
        } else if str_eq(name, "mkdir") {
            Some(Method::Mkdir)
        } else if str_eq(name, "read_dir") {
            Some(Method::ReadDir)
        } else if str_eq(name, "stat") {
            Some(Method::Stat)
        } else if str_eq(name, "remove") {
            Some(Method::Remove)
        } else if str_eq(name, "rename") {
            Some(Method::Rename)
        } else if str_eq(name, "copy") {
            Some(Method::Copy)
        } else if str_eq(name, "chmod") {
            Some(Method::Chmod)
        } else {
            None
        }
    }
}

/// What reading a line from standard input gave.
pub enum LineRead {
    /// The input has ended.
    Eof,
    /// The input cannot be read.
    Failed,
    Line(String),
}

/// What to do after a line was read.
pub enum LineStep {
    /// The session is over.
    Stop,
    /// There is nothing on the line.
    Skip,
    /// The text of a request, without the white space around it.
    Parse(String),
}

/// Takes a line of input.
pub fn take_line(read: LineRead) -> (r: LineStep)
    ensures
        match read {
            LineRead::Eof | LineRead::Failed => r is Stop,
            LineRead::Line(line) => if trimmed(line@).len() == 0 {
                r is Skip
            } else {
                r matches LineStep::Parse(text) && text@ == trimmed(line@)
            },
        },
{
    match read {
        LineRead::Eof => LineStep::Stop,
        LineRead::Failed => LineStep::Stop,
        LineRead::Line(line) => {
            let text = trim(line.as_str());
            if text.as_str().is_empty() {
                LineStep::Skip
            } else {
                LineStep::Parse(text)
            }
        },
    }
}

/// What a response carries.
pub enum Body {
    Error { code: i32, message: String },
    Exec { stdout: String, stderr: String, exit_code: i32 },
    Spawned { pid: String },
    Content { content: String },
    Empty,
    Entries { entries: Vec<DirEntry> },
    Stat { stat: FileStat },
}

/// A response. It carries the id of its request, and none (which is written as
/// null) where the request could not be read.
pub struct Response<I> {
    pub id: Option<I>,
    pub body: Body,
}

impl<I> Response<I> {
    /// Whether this is the error response of that id, code and message.
    pub open spec fn is_error(self, id: Option<I>, code: i32, message: Seq<char>) -> bool {
        &&& self.id == id
        &&& self.body matches Body::Error { code: c, message: m } && c == code && m@ == message
    }

    /// Whether this is the response that only says the request was done.
    pub open spec fn is_empty_result(self, id: I) -> bool {
        &&& self.id == Some(id)
        &&& self.body is Empty
    }
}

fn error_response<I>(id: Option<I>, code: i32, message: String) -> (r: Response<I>)
    ensures
        r.is_error(id, code, message@),
{
    Response { id, body: Body::Error { code, message } }
}

fn empty_response<I>(id: I) -> (r: Response<I>)
    ensures
        r.is_empty_result(id),
{
    Response { id: Some(id), body: Body::Empty }
}

/// The response to a line that is not a request.
pub fn parse_error<I>(error: &str) -> (r: Response<I>)
    ensures
        r.is_error(None, PARSE_ERROR, "parse error: "@ + error@),
{
    error_response(None, PARSE_ERROR, cat("parse error: ", error))
}

/// The parameters of a request, by method.
pub enum Params {
    Exec { argv: Vec<String> },
    Spawn { argv: Vec<String>, env: StringMap<String>, cwd: Option<String> },
    Kill { pid: String },
    Input { pid: String, data: String },
    Watch { path: String, recursive: bool },
    ReadFile { path: String },
    WriteFile { path: String, content: String },
    Checkpoint { name: String },
    Mkdir { path: String, recursive: bool },
    ReadDir { path: String },
    Stat { path: String },
    Remove { path: String, recursive: bool },
    Rename { old_path: String, new_path: String },
    Copy { src: String, dst: String, recursive: bool },
    Chmod { path: String, mode: u32 },
}

/// What `mkdir` and `watch` take where the request does not say whether they are recursive.
pub fn default_true() -> (r: bool)
    ensures
        r,
{
    true
}

/// Whether a method is recursive where the request does not say.
pub fn default_recursive(m: Method) -> (r: bool)
    ensures
        r == (m == Method::Mkdir || m == Method::Watch),
{
    match m {
        Method::Mkdir => default_true(),
        Method::Watch => default_true(),
        _ => false,
    }
}

/// A request that was read.
pub enum Call {
    /// No method has that name.
    Unknown { name: String },
    /// The parameters do not fit the method.
    Malformed { method: Method, error: String },
    Valid { params: Params },
}

/// What a request makes the session do.
pub enum Action<I> {
    /// Nothing.
    Ignore,
    /// Send the response.
    Reply { response: Response<I> },
    /// Run a command to its end, then answer with [`exec_response`].
    Exec { id: I, argv: Vec<String>, env: StringMap<String> },
    /// Send the response and start a process.
    Spawn {
        pid: String,
        argv: Vec<String>,
        env: StringMap<String>,
        cwd: Option<String>,
        response: Response<I>,
    },
    /// Stop the process, if there is one, and send the response.
    Kill { target: Option<String>, response: Response<I> },
    /// Hand the data to the process.
    Input { pid: String, data: Vec<u8> },
    /// Send the response and start a watch.
    Watch { path: String, recursive: bool, response: Response<I> },
    /// Read a file, then answer with [`read_file_response`].
    ReadFile { id: I, path: String },
    /// Write a file, then answer with [`done_response`].
    WriteFile { id: I, path: String, data: Vec<u8> },
    /// Save the disk, answer with [`checkpoint_response`] and end the session.
    Checkpoint { id: I, name: String },
    /// Change the guest's files, then answer with [`done_response`].
    Mkdir { id: I, path: String, recursive: bool },
    Remove { id: I, path: String, recursive: bool },
    Rename { id: I, old_path: String, new_path: String },
    Copy { id: I, src: String, dst: String, recursive: bool },
    Chmod { id: I, path: String, mode: u32 },
    /// List a directory, then answer with [`read_dir_response`].
    ReadDir { id: I, path: String },
    /// Look at a file, then answer with [`stat_response`].
    Stat { id: I, path: String },
}

/// The name of the `n`th process that a session starts.
pub open spec fn pid_text(n: nat) -> Seq<char> {
    "p"@ + decimal_text(n)
}

/// Whether `pid` names one of the first `n` processes.
pub open spec fn is_known_pid(pid: Seq<char>, n: nat) -> bool {
    exists|k: nat| 1 <= k <= n && pid == #[trigger] pid_text(k)
}

/// What a session remembers between requests.
pub struct Session {
    secret_env: StringMap<String>,
    processes: Vec<String>,
}

impl Session {
    /// Process names are numbered from 1 in the order in which they were given.
    #[verifier::type_invariant]
    spec fn pids_are_numbered(self) -> bool {
        forall|i: int|
            0 <= i < self.processes@.len() ==> (#[trigger] self.processes@[i])@ == pid_text(
                (i + 1) as nat,
            )
    }

    /// The number of processes started so far.
    pub closed spec fn spawned(self) -> nat {
        self.processes@.len()
    }

    /// The environment that every command of the session gets.
    pub closed spec fn secret_env(self) -> Seq<(Seq<char>, String)> {
        self.secret_env@
    }

    /// A session whose commands see the placeholders of the secrets.
    pub fn new(secret_env: StringMap<String>) -> (r: Self)
        ensures
            r.spawned() == 0,
            r.secret_env() == secret_env@,
    {
        Session { secret_env, processes: Vec::new() }
    }

    fn is_known(&self, pid: &str) -> (r: bool)
        ensures
            r == is_known_pid(pid@, self.spawned()),
    {
        proof {
            use_type_invariant(self);
        }
        let mut i: usize = 0;
        while i < self.processes.len()
            invariant
                self.pids_are_numbered(),
                i <= self.processes@.len(),
                forall|j: int| 0 <= j < i ==> (#[trigger] self.processes@[j])@ != pid@,
            decreases self.processes@.len() - i,
        {
            if str_eq(self.processes[i].as_str(), pid) {
                assert(pid@ == pid_text((i + 1) as nat));
                return true;
            }
            i += 1;
        }
        proof {
            if is_known_pid(pid@, self.spawned()) {
                let k = choose|k: nat| 1 <= k <= self.spawned() && pid@ == #[trigger] pid_text(k);
                assert(self.processes@[k - 1]@ == pid@);
            }
        }
        false
    }

    fn start_process(&mut self) -> (pid: String)
        requires
            old(self).spawned() < usize::MAX,
        ensures
            pid@ == pid_text(old(self).spawned() + 1),
            final(self).spawned() == old(self).spawned() + 1,
            final(self).secret_env() == old(self).secret_env(),
    {
        proof {
            use_type_invariant(&*self);
        }
        let n = self.processes.len() + 1;
        let pid = cat("p", decimal(n as u64).as_str());
        let mut processes: Vec<String> = Vec::new();
        std::mem::swap(&mut processes, &mut self.processes);
        processes.push(pid.clone());
        self.processes = processes;
        pid
    }

    /// Decides what a request makes the session do.
    pub fn handle<I>(&mut self, id: I, call: Call) -> (r: Action<I>)
        requires
            is_spawn(call) ==> old(self).spawned() < usize::MAX,
        ensures
            handled(*old(self), id, call, *final(self), r),
    {
        match call {
            Call::Unknown { name } => Action::Reply {
                response: error_response(
                    Some(id),
                    METHOD_NOT_FOUND,
                    cat("method not found: ", name.as_str()),
                ),
            },
            Call::Malformed { method, error } => {
                if method == Method::Input {
                    Action::Ignore
                } else {
                    Action::Reply {
                        response: error_response(
                            Some(id),
                            INVALID_PARAMS,
                            cat("invalid params: ", error.as_str()),
                        ),
                    }
                }
            },
            Call::Valid { params } => match params {
                Params::Exec { argv } => Action::Exec { id, argv, env: copied(&self.secret_env) },
                Params::Spawn { argv, env, cwd } => {
                    let mut merged = copied(&self.secret_env);
                    merged.extend(env);
                    let pid = self.start_process();
                    let response = Response {
                        id: Some(id),
                        body: Body::Spawned { pid: pid.clone() },
                    };
                    Action::Spawn { pid, argv, env: merged, cwd, response }
                },
                Params::Kill { pid } => {
                    let known = self.is_known(pid.as_str());
                    let response = empty_response(id);
                    if known {
                        Action::Kill { target: Some(pid), response }
                    } else {
                        Action::Kill { target: None, response }
                    }
                },
                Params::Input { pid, data } => {
                    if self.is_known(pid.as_str()) {
                        match base64_decode(data.as_str()) {
                            Ok(bytes) => Action::Input { pid, data: bytes },
                            Err(_) => Action::Ignore,
                        }
                    } else {
                        Action::Ignore
                    }
                },
                Params::Watch { path, recursive } => Action::Watch {
                    path,
                    recursive,
                    response: empty_response(id),
                },
                Params::ReadFile { path } => Action::ReadFile { id, path },
                Params::WriteFile { path, content } => match base64_decode(content.as_str()) {
                    Ok(data) => Action::WriteFile { id, path, data },
                    Err(error) => Action::Reply {
                        response: error_response(
                            Some(id),
                            INVALID_PARAMS,
                            cat("invalid base64: ", error.as_str()),
                        ),
                    },
                },
                Params::Checkpoint { name } => Action::Checkpoint { id, name },
                Params::Mkdir { path, recursive } => Action::Mkdir { id, path, recursive },
                Params::ReadDir { path } => Action::ReadDir { id, path },
                Params::Stat { path } => Action::Stat { id, path },
                Params::Remove { path, recursive } => Action::Remove { id, path, recursive },
                Params::Rename { old_path, new_path } => Action::Rename { id, old_path, new_path },
                Params::Copy { src, dst, recursive } => Action::Copy { id, src, dst, recursive },
                Params::Chmod { path, mode } => Action::Chmod { id, path, mode },
            },
        }
    }
}

/// What a request makes a session do that has started `n` processes and whose
/// commands get the environment `env`.
pub open spec fn action_of<I>(
    n: nat,
    env: Seq<(Seq<char>, String)>,
    id: I,
    call: Call,
    action: Action<I>,
) -> bool {
    match call {
        Call::Unknown { name } => action matches Action::Reply { response }
            && response.is_error(Some(id), METHOD_NOT_FOUND, "method not found: "@ + name@),
        Call::Malformed { method, error } => if method == Method::Input {
            action is Ignore
        } else {
            action matches Action::Reply { response } && response.is_error(
                Some(id),
                INVALID_PARAMS,
                "invalid params: "@ + error@,
            )
        },
        Call::Valid { params } => match params {
            Params::Exec { argv } => action matches Action::Exec { id: i, argv: a, env: e } && i
                == id && a == argv && e@ == env,
            Params::Spawn { argv, env: extra, cwd } => {
                action matches Action::Spawn { pid, argv: a, env: e, cwd: c, response } && a == argv
                    && c == cwd && e@ == with_entries(env, extra@) && pid@ == pid_text(n + 1)
                    && response.id == Some(id) && (response.body matches Body::Spawned { pid: p }
                    && p@ == pid_text(n + 1))
            },
            Params::Kill { pid } => action matches Action::Kill { target: p, response }
                && response.is_empty_result(id) && p == (if is_known_pid(pid@, n) {
                Some(pid)
            } else {
                None
            }),
            Params::Input { pid, data } => if is_known_pid(pid@, n) && base64_data(data@) is Ok {
                action matches Action::Input { pid: p, data: d } && p == pid && decodes_to(
                    data@,
                    d@,
                )
            } else {
                action is Ignore
            },
            Params::Watch { path, recursive } => {
                action matches Action::Watch { path: p, recursive: r, response } && p == path && r
                    == recursive && response.is_empty_result(id)
            },
            Params::ReadFile { path } => action == (Action::ReadFile { id, path }),
            Params::WriteFile { path, content } => match base64_data(content@) {
                Ok(data) => action matches Action::WriteFile { id: i, path: p, data: d } && i == id
                    && p == path && d@ == data,
                Err(error) => action matches Action::Reply { response } && response.is_error(
                    Some(id),
                    INVALID_PARAMS,
                    "invalid base64: "@ + error,
                ),
            },
            Params::Checkpoint { name } => action == (Action::Checkpoint { id, name }),
            Params::Mkdir { path, recursive } => action == (Action::Mkdir { id, path, recursive }),
            Params::ReadDir { path } => action == (Action::ReadDir { id, path }),
            Params::Stat { path } => action == (Action::Stat { id, path }),
            Params::Remove { path, recursive } => action == (Action::Remove {
                id,
                path,
                recursive,
            }),
            Params::Rename { old_path, new_path } => action == (Action::Rename {
                id,
                old_path,
                new_path,
            }),
            Params::Copy { src, dst, recursive } => action == (Action::Copy {
                id,
                src,
                dst,
                recursive,
            }),
            Params::Chmod { path, mode } => action == (Action::Chmod { id, path, mode }),
        },
    }
}

/// Whether a call starts a process.
pub open spec fn is_spawn(call: Call) -> bool {
    call matches Call::Valid { params: Params::Spawn { .. } }
}

/// Whether a request takes a session from one state to the next and makes it do that.
pub open spec fn handled<I>(
    before: Session,
    id: I,
    call: Call,
    after: Session,
    action: Action<I>,
) -> bool {
    &&& after.secret_env() == before.secret_env()
    &&& after.spawned() == before.spawned() + (if is_spawn(call) {
        1nat
    } else {
        0nat
    })
    &&& action_of(before.spawned(), before.secret_env(), id, call, action)
}

impl<I> Action<I> {
    /// Whether the session is over once this is done: a checkpoint stops the machine.
    pub fn ends_session(&self) -> (r: bool)
        ensures
            r == (*self is Checkpoint),
    {
        match self {
            Action::Checkpoint { .. } => true,
            _ => false,
        }
    }
}

/// A request that can be read becomes the action that does what it asks for, on what it
/// names and under its own id.
pub proof fn law_requests_do_what_they_say<I>(
    n: nat,
    env: Seq<(Seq<char>, String)>,
    id: I,
    params: Params,
    action: Action<I>,
)
    requires
        action_of(n, env, id, Call::Valid { params }, action),
    ensures
        match params {
            Params::Exec { argv } => action matches Action::Exec { id: i, argv: a, env: e } && i
                == id && a == argv && e@ == env,
            Params::Spawn { argv, cwd, .. } => {
                action matches Action::Spawn { argv: a, cwd: c, .. } && a == argv && c == cwd
            },
            Params::Kill { .. } => {
                action matches Action::Kill { response, .. } && response.id == Some(id)
                    && response.body is Empty
            },
            Params::Input { pid, data } => {
                action is Ignore || (action matches Action::Input { pid: p, data: d } && p == pid
                    && base64_data(data@) == Ok::<Seq<u8>, Seq<char>>(d@))
            },
            Params::Watch { path, recursive } => {
                action matches Action::Watch { path: p, recursive: b, response } && p == path && b
                    == recursive && response.id == Some(id) && response.body is Empty
            },
            Params::ReadFile { path } => {
                action matches Action::ReadFile { id: i, path: p } && i == id && p == path
            },
            Params::WriteFile { path, content } => match base64_data(content@) {
                Ok(bytes) => action matches Action::WriteFile { id: i, path: p, data } && i == id
                    && p == path && data@ == bytes,
                Err(why) => action matches Action::Reply { response } && response.id == Some(id)
                    && (response.body matches Body::Error { code, message } && code == -32602
                    && message@ == "invalid base64: "@ + why),
            },
            Params::Checkpoint { name } => {
                action matches Action::Checkpoint { id: i, name: x } && i == id && x == name
            },
            Params::Mkdir { path, recursive } => {
                action matches Action::Mkdir { id: i, path: p, recursive: b } && i == id && p
                    == path && b == recursive
            },
            Params::ReadDir { path } => {
                action matches Action::ReadDir { id: i, path: p } && i == id && p == path
            },
            Params::Stat { path } => {
                action matches Action::Stat { id: i, path: p } && i == id && p == path
            },
            Params::Remove { path, recursive } => {
                action matches Action::Remove { id: i, path: p, recursive: b } && i == id && p
                    == path && b == recursive
            },
            Params::Rename { old_path, new_path } => {
                action matches Action::Rename { id: i, old_path: p, new_path: q } && i == id && p
                    == old_path && q == new_path
            },
            Params::Copy { src, dst, recursive } => {
                action matches Action::Copy { id: i, src: p, dst: q, recursive: b } && i == id
                    && p == src && q == dst && b == recursive
            },
            Params::Chmod { path, mode } => {
                action matches Action::Chmod { id: i, path: p, mode: m } && i == id && p == path
                    && m == mode
            },
        },
{
}

/// A request that cannot be read is refused under its own id, with the code that says why
/// and with the cause; input, which is never answered, is passed over.
pub proof fn law_bad_requests_are_refused<I>(
    n: nat,
    env: Seq<(Seq<char>, String)>,
    id: I,
    call: Call,
    action: Action<I>,
)
    requires
        action_of(n, env, id, call, action),
    ensures
        call matches Call::Unknown { name } ==> (action matches Action::Reply { response }
            && response.id == Some(id) && (response.body matches Body::Error { code, message }
            && code == -32601 && message@ == "method not found: "@ + name@)),
        call matches Call::Malformed { method, error } ==> (if method == Method::Input {
            action is Ignore
        } else {
            action matches Action::Reply { response } && response.id == Some(id) && (
            response.body matches Body::Error { code, message } && code == -32602 && message@
                == "invalid params: "@ + error@)
        }),
        call is Valid && !(call matches Call::Valid { params: Params::Input { .. } }) && !(
        call matches Call::Valid { params: Params::WriteFile { .. } }) ==> !(action is Ignore)
            && !(action is Reply),
{
}

/// The id that an action answers to, where it answers.
pub open spec fn answers_to<I>(action: Action<I>) -> Option<I> {
    match action {
        Action::Ignore | Action::Input { .. } => None,
        Action::Reply { response } | Action::Spawn { response, .. } | Action::Kill { response, .. }
        | Action::Watch { response, .. } => response.id,
        Action::Exec { id, .. } | Action::ReadFile { id, .. } | Action::WriteFile { id, .. }
        | Action::Checkpoint { id, .. } | Action::Mkdir { id, .. } | Action::Remove { id, .. }
        | Action::Rename { id, .. } | Action::Copy { id, .. } | Action::Chmod { id, .. }
        | Action::ReadDir { id, .. } | Action::Stat { id, .. } => Some(id),
    }
}

/// Whether a call is input for a process, which is never answered.
pub open spec fn is_input(call: Call) -> bool {
    match call {
        Call::Unknown { .. } => false,
        Call::Malformed { method, .. } => method == Method::Input,
        Call::Valid { params } => params is Input,
    }
}

/// Every request but input is answered, under its own id.
pub proof fn law_requests_are_answered<I>(
    n: nat,
    env: Seq<(Seq<char>, String)>,
    id: I,
    call: Call,
    action: Action<I>,
)
    requires
        action_of(n, env, id, call, action),
    ensures
        answers_to(action) == (if is_input(call) {
            None
        } else {
            Some(id)
        }),
{
}

/// No two processes of a session have the same name.
pub proof fn law_pids_differ(a: nat, b: nat)
    requires
        a != b,
    ensures
        pid_text(a) != pid_text(b),
{
    if pid_text(a) == pid_text(b) {
        assert(pid_text(a).skip("p"@.len() as int) =~= decimal_text(a));
        assert(pid_text(b).skip("p"@.len() as int) =~= decimal_text(b));
        lemma_radix_text_injective(a, b, 10);
    }
}

/// A process sees the session's variables, except where the request sets them itself.
pub proof fn law_request_variables_win(
    env: Seq<(Seq<char>, String)>,
    extra: Seq<(Seq<char>, String)>,
    key: Seq<char>,
)
    requires
        distinct_keys(extra),
    ensures
        value_of(with_entries(env, extra), key) == (match value_of(extra, key) {
            Some(v) => Some(v),
            None => value_of(env, key),
        }),
    decreases extra.len(),
{
    lemma_key_index(extra, key);
    if extra.len() > 0 {
        let init = extra.drop_last();
        let last = extra.last();
        assert(distinct_keys(init)) by {
            assert forall|i: int, j: int| 0 <= i < j < init.len() implies (#[trigger] init[i]).0 != (
            #[trigger] init[j]).0 by {
                assert(extra[i].0 != extra[j].0);
            }
        }
        law_request_variables_win(env, init, key);
        lemma_read_after_store(with_entries(env, init), last.0, last.1, key);
        lemma_key_index(init, key);
        if key == last.0 {
            let k = extra.len() - 1;
            assert forall|i: int| 0 <= i < k implies (#[trigger] extra[i]).0 != key by {
                assert(extra[i].0 != extra[k].0);
            }
            lemma_key_index_is(extra, key, k);
        } else if key_index(init, key) < init.len() {
            let k = key_index(init, key) as int;
            assert forall|i: int| 0 <= i < k implies (#[trigger] extra[i]).0 != key by {
                assert(init[i].0 != key);
            }
            assert(extra[k] == init[k]);
            lemma_key_index_is(extra, key, k);
        } else {
            assert forall|i: int| 0 <= i < extra.len() implies (#[trigger] extra[i]).0 != key by {
                if i < init.len() {
                    assert(init[i].0 != key);
                }
            }
            lemma_key_index_is(extra, key, extra.len() as int);
        }
    }
}

/// Whether a session that began with that environment handled those requests in turn:
/// `states` are its states before, between and after them.
pub open spec fn is_session<I>(
    env: Seq<(Seq<char>, String)>,
    states: Seq<Session>,
    ids: Seq<I>,
    calls: Seq<Call>,
    actions: Seq<Action<I>>,
) -> bool {
    &&& states.len() == calls.len() + 1
    &&& ids.len() == calls.len()
    &&& actions.len() == calls.len()
    &&& states[0].spawned() == 0
    &&& states[0].secret_env() == env
    &&& forall|i: int|
        0 <= i < calls.len() ==> handled(
            states[i],
            ids[i],
            #[trigger] calls[i],
            states[i + 1],
            actions[i],
        )
}

/// How many of some requests start a process.
pub open spec fn spawns(calls: Seq<Call>) -> nat
    decreases calls.len(),
{
    if calls.len() == 0 {
        0
    } else {
        spawns(calls.drop_last()) + (if is_spawn(calls.last()) {
            1nat
        } else {
            0nat
        })
    }
}

proof fn lemma_session_state<I>(
    env: Seq<(Seq<char>, String)>,
    states: Seq<Session>,
    ids: Seq<I>,
    calls: Seq<Call>,
    actions: Seq<Action<I>>,
    k: int,
)
    requires
        is_session(env, states, ids, calls, actions),
        0 <= k <= calls.len(),
    ensures
        states[k].spawned() == spawns(calls.take(k)),
        states[k].secret_env() == env,
    decreases k,
{
    if k > 0 {
        lemma_session_state(env, states, ids, calls, actions, k - 1);
        assert(calls.take(k).drop_last() =~= calls.take(k - 1));
        assert(calls.take(k).last() == calls[k - 1]);
    }
}

proof fn lemma_spawns_grow(calls: Seq<Call>, i: int, j: int)
    requires
        0 <= i < j <= calls.len(),
        is_spawn(calls[i]),
    ensures
        spawns(calls.take(i)) < spawns(calls.take(j)),
    decreases j,
{
    assert(calls.take(j).drop_last() =~= calls.take(j - 1));
    assert(calls.take(j).last() == calls[j - 1]);
    if i < j - 1 {
        lemma_spawns_grow(calls, i, j - 1);
    }
}

/// In any session, a request to start a process that can be read is answered under its
/// own id with the name "p" and its number among such requests, counted from 1. The
/// process sees the session's variables, except where the request sets them itself.
pub proof fn law_processes_are_numbered<I>(
    env: Seq<(Seq<char>, String)>,
    states: Seq<Session>,
    ids: Seq<I>,
    calls: Seq<Call>,
    actions: Seq<Action<I>>,
    k: int,
    extra: StringMap<String>,
)
    requires
        is_session(env, states, ids, calls, actions),
        0 <= k < calls.len(),
        calls[k] matches Call::Valid { params: Params::Spawn { env: e, .. } } && e == extra,
        distinct_keys(extra@),
    ensures
        actions[k] matches Action::Spawn { pid, env: seen, response, .. } && {
            &&& pid@ == pid_text(spawns(calls.take(k)) + 1)
            &&& response.id == Some(ids[k])
            &&& response.body matches Body::Spawned { pid: told } && told@ == pid@
            &&& forall|key: Seq<char>| #[trigger]
                value_of(seen@, key) == (match value_of(extra@, key) {
                    Some(v) => Some(v),
                    None => value_of(env, key),
                })
        },
{
    lemma_session_state(env, states, ids, calls, actions, k);
    assert(handled(states[k], ids[k], calls[k], states[k + 1], actions[k]));
    assert forall|key: Seq<char>| #[trigger]
        value_of(with_entries(env, extra@), key) == (match value_of(extra@, key) {
            Some(v) => Some(v),
            None => value_of(env, key),
        }) by {
        law_request_variables_win(env, extra@, key);
    }
}

/// In any session, a process can be killed and gets input from its start on, under the
/// name that was told: what is sent to a name that no request got reaches nobody.
pub proof fn law_processes_are_reached_by_name<I>(
    env: Seq<(Seq<char>, String)>,
    states: Seq<Session>,
    ids: Seq<I>,
    calls: Seq<Call>,
    actions: Seq<Action<I>>,
    k: int,
    name: String,
    data: String,
)
    requires
        is_session(env, states, ids, calls, actions),
        0 <= k < calls.len(),
    ensures
        ({
            let started = exists|i: int|
                0 <= i < k && (#[trigger] actions[i] matches Action::Spawn { pid, .. } && pid@
                    == name@);
            &&& calls[k] == (Call::Valid { params: Params::Kill { pid: name } }) ==> (
            actions[k] matches Action::Kill { target, .. } && target == (if started {
                Some(name)
            } else {
                None
            }))
            &&& calls[k] == (Call::Valid { params: Params::Input { pid: name, data } }) ==> (
            if started && base64_data(data@) is Ok {
                actions[k] matches Action::Input { pid: p, data: d } && p == name && Ok::<
                    Seq<u8>,
                    Seq<char>,
                >(d@) == base64_data(data@)
            } else {
                actions[k] is Ignore
            })
        }),
{
    assert(handled(states[k], ids[k], calls[k], states[k + 1], actions[k]));
    lemma_session_state(env, states, ids, calls, actions, k);
    lemma_started(env, states, ids, calls, actions, k, name@);
}

proof fn lemma_started<I>(
    env: Seq<(Seq<char>, String)>,
    states: Seq<Session>,
    ids: Seq<I>,
    calls: Seq<Call>,
    actions: Seq<Action<I>>,
    k: int,
    name: Seq<char>,
)
    requires
        is_session(env, states, ids, calls, actions),
        0 <= k <= calls.len(),
    ensures
        is_known_pid(name, spawns(calls.take(k))) <==> exists|i: int|
            0 <= i < k && (#[trigger] actions[i] matches Action::Spawn { pid, .. } && pid@
                == name),
    decreases k,
{
    if k > 0 {
        let j = k - 1;
        lemma_started(env, states, ids, calls, actions, j, name);
        lemma_session_state(env, states, ids, calls, actions, j);
        assert(handled(states[j], ids[j], calls[j], states[k], actions[j]));
        assert(calls.take(k).drop_last() =~= calls.take(j));
        assert(calls.take(k).last() == calls[j]);
        let n = spawns(calls.take(j));
        let m = spawns(calls.take(k));
        if is_known_pid(name, m) {
            let q = choose|q: nat| 1 <= q <= m && name == #[trigger] pid_text(q);
            if q <= n {
                assert(is_known_pid(name, n));
            }
        }
        if is_known_pid(name, n) {
            let q = choose|q: nat| 1 <= q <= n && name == #[trigger] pid_text(q);
            assert(1 <= q <= m && name == pid_text(q));
        }
        if let Action::Spawn { pid, .. } = actions[j] {
            assert(pid@ == pid_text(n + 1));
        }
    }
}

/// Nothing but such a request starts a process. One that cannot be read is refused under
/// its own id, and uses no number up.
pub proof fn law_refused_spawns_use_no_number<I>(
    env: Seq<(Seq<char>, String)>,
    states: Seq<Session>,
    ids: Seq<I>,
    calls: Seq<Call>,
    actions: Seq<Action<I>>,
    k: int,
)
    requires
        is_session(env, states, ids, calls, actions),
        0 <= k < calls.len(),
    ensures
        actions[k] is Spawn <==> is_spawn(calls[k]),
        !is_spawn(calls[k]) ==> spawns(calls.take(k + 1)) == spawns(calls.take(k)),
        calls[k] matches Call::Malformed { method: Method::Spawn, error } ==> (
        actions[k] matches Action::Reply { response } && response.is_error(
            Some(ids[k]),
            INVALID_PARAMS,
            "invalid params: "@ + error@,
        )),
{
    assert(handled(states[k], ids[k], calls[k], states[k + 1], actions[k]));
    assert(calls.take(k + 1).drop_last() =~= calls.take(k));
    assert(calls.take(k + 1).last() == calls[k]);
}

/// No name of a process is used twice in a session.
pub proof fn law_pids_are_not_reused<I>(
    env: Seq<(Seq<char>, String)>,
    states: Seq<Session>,
    ids: Seq<I>,
    calls: Seq<Call>,
    actions: Seq<Action<I>>,
    i: int,
    j: int,
)
    requires
        is_session(env, states, ids, calls, actions),
        0 <= i < j < calls.len(),
    ensures
        actions[i] matches Action::Spawn { pid: a, .. } ==> (actions[j] matches Action::Spawn {
            pid: b,
            ..
        } ==> a@ != b@),
{
    assert(handled(states[i], ids[i], calls[i], states[i + 1], actions[i]));
    assert(handled(states[j], ids[j], calls[j], states[j + 1], actions[j]));
    lemma_session_state(env, states, ids, calls, actions, i);
    lemma_session_state(env, states, ids, calls, actions, j);
    if actions[i] is Spawn && actions[j] is Spawn {
        lemma_spawns_grow(calls, i, j);
        law_pids_differ(spawns(calls.take(i)) + 1, spawns(calls.take(j)) + 1);
    }
}

/// Whether running a command to its end gives that response.
pub open spec fn is_exec_response<I>(
    id: I,
    outcome: Result<(ExecOutput, i32), String>,
    r: Response<I>,
) -> bool {
    match outcome {
        Ok((output, code)) => r.id == Some(id) && (r.body matches Body::Exec {
            stdout,
            stderr,
            exit_code,
        } && stdout@ == lossy_text(output.stdout@) && stderr@ == lossy_text(output.stderr@)
            && exit_code == code),
        Err(error) => r.is_error(Some(id), SERVER_ERROR, "exec failed: "@ + error@),
    }
}

/// The response to a command that was run to its end.
pub fn exec_response<I>(id: I, outcome: Result<(ExecOutput, i32), String>) -> (r: Response<I>)
    ensures
        is_exec_response(id, outcome, r),
{
    match outcome {
        Ok((output, exit_code)) => Response {
            id: Some(id),
            body: Body::Exec {
                stdout: utf8_lossy(output.stdout.as_slice()),
                stderr: utf8_lossy(output.stderr.as_slice()),
                exit_code,
            },
        },
        Err(error) => error_response(
            Some(id),
            SERVER_ERROR,
            cat("exec failed: ", error.as_str()),
        ),
    }
}

/// The response to a file that was read.
pub fn read_file_response<I>(id: I, outcome: Result<Vec<u8>, String>) -> (r: Response<I>)
    requires
        outcome matches Ok(data) ==> base64_fits(data@.len()),
    ensures
        match outcome {
            Ok(data) => r.id == Some(id) && (r.body matches Body::Content { content } && content@
                == base64_text(data@) && decodes_to(content@, data@)),
            Err(error) => r.is_error(Some(id), SERVER_ERROR, error@),
        },
{
    match outcome {
        Ok(data) => Response {
            id: Some(id),
            body: Body::Content { content: base64_encode(data.as_slice()) },
        },
        Err(error) => error_response(Some(id), SERVER_ERROR, error),
    }
}

/// A file that was read and is then written is written with the same bytes.
pub proof fn law_file_round_trip<I>(
    data: Seq<u8>,
    content: String,
    n: nat,
    env: Seq<(Seq<char>, String)>,
    id: I,
    path: String,
    action: Action<I>,
)
    requires
        decodes_to(content@, data),
        action_of(n, env, id, Call::Valid { params: Params::WriteFile { path, content } }, action),
    ensures
        action matches Action::WriteFile { data: written, .. } && written@ == data,
{
}

/// The response to a change that was made, or was not.
pub fn done_response<I>(id: I, outcome: Result<(), String>) -> (r: Response<I>)
    ensures
        match outcome {
            Ok(_) => r.is_empty_result(id),
            Err(error) => r.is_error(Some(id), SERVER_ERROR, error@),
        },
{
    match outcome {
        Ok(_) => empty_response(id),
        Err(error) => error_response(Some(id), SERVER_ERROR, error),
    }
}

/// The response to a directory that was listed.
pub fn read_dir_response<I>(id: I, outcome: Result<Vec<DirEntry>, String>) -> (r: Response<I>)
    ensures
        match outcome {
            Ok(entries) => r == (Response { id: Some(id), body: Body::Entries { entries } }),
            Err(error) => r.is_error(Some(id), SERVER_ERROR, error@),
        },
{
    match outcome {
        Ok(entries) => Response { id: Some(id), body: Body::Entries { entries } },
        Err(error) => error_response(Some(id), SERVER_ERROR, error),
    }
}

/// The response to a file that was looked at.
pub fn stat_response<I>(id: I, outcome: Result<FileStat, String>) -> (r: Response<I>)
    ensures
        match outcome {
            Ok(stat) => r == (Response { id: Some(id), body: Body::Stat { stat } }),
            Err(error) => r.is_error(Some(id), SERVER_ERROR, error@),
        },
{
    match outcome {
        Ok(stat) => Response { id: Some(id), body: Body::Stat { stat } },
        Err(error) => error_response(Some(id), SERVER_ERROR, error),
    }
}

/// The command that makes the guest write its caches back, before its disk is saved.
pub fn sync_command() -> (r: Vec<String>)
    ensures
        texts(r@) == seq!["sync"@],
{
    let mut r: Vec<String> = Vec::new();
    r.push("sync".to_owned());
    assert(texts(r@) =~= seq!["sync"@]);
    r
}

/// How far saving the disk came.
pub enum CheckpointOutcome {
    /// The guest could not write its caches back.
    SyncFailed { error: String },
    /// The directory of checkpoints could not be made.
    DirFailed { error: String },
    /// The disk could not be copied.
    CloneFailed { error: String },
    Saved,
}

/// The response to a disk that was saved, or was not.
pub fn checkpoint_response<I>(id: I, outcome: CheckpointOutcome) -> (r: Response<I>)
    ensures
        match outcome {
            CheckpointOutcome::SyncFailed { error } => r.is_error(
                Some(id),
                SERVER_ERROR,
                "checkpoint sync failed: "@ + error@,
            ),
            CheckpointOutcome::DirFailed { error } => r.is_error(
                Some(id),
                SERVER_ERROR,
                "failed to create checkpoints dir: "@ + error@,
            ),
            CheckpointOutcome::CloneFailed { error } => r.is_error(
                Some(id),
                SERVER_ERROR,
                "checkpoint clone failed: "@ + error@,
            ),
            CheckpointOutcome::Saved => r.is_empty_result(id),
        },
{
    match outcome {
        CheckpointOutcome::SyncFailed { error } => error_response(
            Some(id),
            SERVER_ERROR,
            cat("checkpoint sync failed: ", error.as_str()),
        ),
        CheckpointOutcome::DirFailed { error } => error_response(
            Some(id),
            SERVER_ERROR,
            cat("failed to create checkpoints dir: ", error.as_str()),
        ),
        CheckpointOutcome::CloneFailed { error } => error_response(
            Some(id),
            SERVER_ERROR,
            cat("checkpoint clone failed: ", error.as_str()),
        ),
        CheckpointOutcome::Saved => empty_response(id),
    }
}

/// The output streams of a process.
#[derive(Debug, Clone, Copy, PartialEq, Eq, Structural)]
pub enum Stream {
    Stdout,
    Stderr,
}

/// The name of a stream.
pub open spec fn stream_text(s: Stream) -> Seq<char> {
    match s {
        Stream::Stdout => "stdout"@,
        Stream::Stderr => "stderr"@,
    }
}

/// What happens in the guest beside the requests.
#[derive(Debug)]
pub enum Event {
    Output { pid: String, stream: Stream, data: Vec<u8> },
    Exit { pid: String, code: i32 },
    FileChange { path: String, event: String },
}

/// A message to the client that answers no request.
#[derive(Debug)]
pub enum Notification {
    Ready,
    Output { pid: String, stream: String, data: String },
    Exit { pid: String, code: i32 },
    FileChange { path: String, event: String },
}

impl Notification {
    /// The name of this notification on the wire.
    pub fn method(&self) -> (r: &'static str)
        ensures
            r@ == (match self {
                Notification::Ready => "ready"@,
                Notification::Output { .. } => "output"@,
                Notification::Exit { .. } => "exit"@,
                Notification::FileChange { .. } => "file_change"@,
            }),
    {
        match self {
            Notification::Ready => "ready",
            Notification::Output { .. } => "output",
            Notification::Exit { .. } => "exit",
            Notification::FileChange { .. } => "file_change",
        }
    }
}

/// The notification that tells of an event. Data goes out in Base64.
pub fn notification_of(event: Event) -> (r: Notification)
    requires
        event matches Event::Output { data, .. } ==> base64_fits(data@.len()),
    ensures
        match event {
            Event::Output { pid, stream, data } => r matches Notification::Output {
                pid: p,
                stream: s,
                data: d,
            } && p == pid && s@ == stream_text(stream) && d@ == base64_text(data@) && decodes_to(
                d@,
                data@,
            ),
            Event::Exit { pid, code } => r == (Notification::Exit { pid, code }),
            Event::FileChange { path, event } => r == (Notification::FileChange { path, event }),
        },
{
    match event {
        Event::Output { pid, stream, data } => {
            let name = match stream {
                Stream::Stdout => "stdout",
                Stream::Stderr => "stderr",
            };
            Notification::Output {
                pid,
                stream: name.to_owned(),
                data: base64_encode(data.as_slice()),
            }
        },
        Event::Exit { pid, code } => Notification::Exit { pid, code },
        Event::FileChange { path, event } => Notification::FileChange { path, event },
    }
}

/// What an event of a process says.
pub enum ProcessView {
    Output { stream: Stream, data: Seq<u8> },
    Exit { code: i32 },
}

/// Whether an event is of that process and says that.
pub open spec fn says(event: Event, pid: Seq<char>, view: ProcessView) -> bool {
    match view {
        ProcessView::Output { stream, data } => event matches Event::Output {
            pid: p,
            stream: s,
            data: d,
        } && p@ == pid && s == stream && d@ == data,
        ProcessView::Exit { code } => event matches Event::Exit { pid: p, code: c } && p@ == pid
            && c == code,
    }
}

/// What a frame of a running process makes known. A process that the guest could not
/// run, or whose connection breaks, exits with 1.
pub open spec fn process_views(read: Received<ProcessFrame>) -> Seq<ProcessView> {
    match read {
        Received::Frame { frame: ProcessFrame::Stdout { data } } => seq![
            ProcessView::Output { stream: Stream::Stdout, data: data@ },
        ],
        Received::Frame { frame: ProcessFrame::Stderr { data } } => seq![
            ProcessView::Output { stream: Stream::Stderr, data: data@ },
        ],
        Received::Frame { frame: ProcessFrame::Exit { code } } => seq![
            ProcessView::Exit {
                code: match code {
                    Some(c) => c,
                    None => 0,
                },
            },
        ],
        Received::Frame { frame: ProcessFrame::Error { payload } } => seq![
            ProcessView::Output { stream: Stream::Stderr, data: payload@ },
            ProcessView::Exit { code: 1 },
        ],
        _ => seq![ProcessView::Exit { code: 1 }],
    }
}

/// Whether nothing more is read of a process after a frame.
pub open spec fn process_ends(read: Received<ProcessFrame>) -> bool {
    !(read matches Received::Frame { frame: ProcessFrame::Stdout { .. } }) && !(
    read matches Received::Frame { frame: ProcessFrame::Stderr { .. } })
}

/// What becomes known of a process whose frames are read in turn, until it is over.
pub open spec fn run_views(reads: Seq<Received<ProcessFrame>>) -> Seq<ProcessView>
    decreases reads.len(),
{
    if reads.len() == 0 {
        Seq::empty()
    } else if process_ends(reads[0]) {
        process_views(reads[0])
    } else {
        process_views(reads[0]) + run_views(reads.drop_first())
    }
}

/// Whether one of the frames ends the process.
pub open spec fn run_ends(reads: Seq<Received<ProcessFrame>>) -> bool {
    exists|i: int| 0 <= i < reads.len() && process_ends(#[trigger] reads[i])
}

/// Over a whole run, a process is reported to exit exactly when it is over, once, and
/// last of all.
pub proof fn law_exit_is_reported_once_and_last(reads: Seq<Received<ProcessFrame>>)
    ensures
        run_ends(reads) ==> run_views(reads).len() > 0 && run_views(reads).last() is Exit,
        forall|i: int|
            0 <= i < run_views(reads).len() ==> (#[trigger] run_views(reads)[i] is Exit
                <==> run_ends(reads) && i == run_views(reads).len() - 1),
    decreases reads.len(),
{
    if reads.len() > 0 {
        let rest = reads.drop_first();
        if process_ends(reads[0]) {
            assert(run_ends(reads));
        } else {
            law_exit_is_reported_once_and_last(rest);
            if run_ends(rest) {
                let k = choose|i: int| 0 <= i < rest.len() && process_ends(#[trigger] rest[i]);
                assert(process_ends(reads[k + 1]));
            }
            if run_ends(reads) {
                let k = choose|i: int| 0 <= i < reads.len() && process_ends(#[trigger] reads[i]);
                assert(rest[k - 1] == reads[k]);
            }
        }
    }
}

/// Turns a frame of a running process into events, and says whether the process is
/// over.
pub fn process_step(pid: &str, read: Received<ProcessFrame>) -> (r: (Vec<Event>, bool))
    ensures
        r.0@.len() == process_views(read).len(),
        forall|i: int|
            0 <= i < r.0@.len() ==> says(#[trigger] r.0@[i], pid@, process_views(read)[i]),
        r.1 == process_ends(read),
{
    let mut events: Vec<Event> = Vec::new();
    match read {
        Received::Frame { frame } => match frame {
            ProcessFrame::Stdout { data } => {
                events.push(Event::Output { pid: pid.to_owned(), stream: Stream::Stdout, data });
                (events, false)
            },
            ProcessFrame::Stderr { data } => {
                events.push(Event::Output { pid: pid.to_owned(), stream: Stream::Stderr, data });
                (events, false)
            },
            ProcessFrame::Exit { code } => {
                let code = match code {
                    Some(c) => c,
                    None => 0,
                };
                events.push(Event::Exit { pid: pid.to_owned(), code });
                (events, true)
            },
            ProcessFrame::Error { payload } => {
                events.push(
                    Event::Output { pid: pid.to_owned(), stream: Stream::Stderr, data: payload },
                );
                events.push(Event::Exit { pid: pid.to_owned(), code: 1 });
                (events, true)
            },
            ProcessFrame::Other => {
                events.push(Event::Exit { pid: pid.to_owned(), code: 1 });
                (events, true)
            },
        },
        Received::Closed => {
            events.push(Event::Exit { pid: pid.to_owned(), code: 1 });
            (events, true)
        },
        Received::Failed => {
            events.push(Event::Exit { pid: pid.to_owned(), code: 1 });
            (events, true)
        },
    }
}

/// What becomes known of a process that could not be started.
pub fn spawn_failed(pid: &str) -> (r: Event)
    ensures
        says(r, pid@, ProcessView::Exit { code: 1 }),
{
    Event::Exit { pid: pid.to_owned(), code: 1 }
}

/// What a client sends to a running process.
pub enum ProcessInput {
    Stdin(Vec<u8>),
    Kill,
}

/// A frame for a running process.
pub enum InputFrame {
    Stdin { data: Vec<u8> },
    Kill,
}

/// The frame that carries some input, and whether it is the last one.
pub fn input_step(input: ProcessInput) -> (r: (InputFrame, bool))
    ensures
        match input {
            ProcessInput::Stdin(data) => r == (InputFrame::Stdin { data }, false),
            ProcessInput::Kill => r == (InputFrame::Kill, true),
        },
{
    match input {
        ProcessInput::Stdin(data) => (InputFrame::Stdin { data }, false),
        ProcessInput::Kill => (InputFrame::Kill, true),
    }
}

/// What a frame of a watch makes happen.
pub enum WatchStep {
    Report { event: Event },
    Ignore,
    Stop,
}

/// Turns a frame of a watch into an event. A change that is garbled is passed over, and
/// any other frame ends the watch.
pub fn watch_step(read: Received<Answer<Option<WatchEvent>>>) -> (r: WatchStep)
    ensures
        match read {
            Received::Frame { frame: Answer::Expected { value: Some(e) } } => r == (
            WatchStep::Report { event: Event::FileChange { path: e.path, event: e.event } }),
            Received::Frame { frame: Answer::Expected { value: None } } => r is Ignore,
            _ => r is Stop,
        },
{
    match read {
        Received::Frame { frame } => match frame {
            Answer::Expected { value } => match value {
                Some(e) => WatchStep::Report {
                    event: Event::FileChange { path: e.path, event: e.event },
                },
                None => WatchStep::Ignore,
            },
            Answer::Error { .. } => WatchStep::Stop,
            Answer::Other { .. } => WatchStep::Stop,
        },
        Received::Failed => WatchStep::Stop,
        Received::Closed => WatchStep::Stop,
    }
}

/// What a process writes is reported as it came, under the stream it was written to, and
/// with the code that it exits with; one that the guest could not run is reported with the
/// guest's words, and one whose connection breaks exits with 1.
pub proof fn law_process_frames_are_reported(read: Received<ProcessFrame>)
    ensures
        ({
            let v = process_views(read);
            match read {
                Received::Frame { frame: ProcessFrame::Stdout { data } } => v.len() == 1 && v[0]
                    == (ProcessView::Output { stream: Stream::Stdout, data: data@ }),
                Received::Frame { frame: ProcessFrame::Stderr { data } } => v.len() == 1 && v[0]
                    == (ProcessView::Output { stream: Stream::Stderr, data: data@ }),
                Received::Frame { frame: ProcessFrame::Exit { code } } => v.len() == 1 && v[0] == (
                ProcessView::Exit {
                    code: match code {
                        Some(c) => c,
                        None => 0,
                    },
                }),
                Received::Frame { frame: ProcessFrame::Error { payload } } => v.len() == 2 && v[0]
                    == (ProcessView::Output { stream: Stream::Stderr, data: payload@ }) && v[1]
                    == (ProcessView::Exit { code: 1 }),
                _ => v.len() == 1 && v[0] == (ProcessView::Exit { code: 1 }),
            }
        }),
{
}

/// An event says what it says of the process under that name, with its own bytes or code.
pub proof fn law_events_name_their_process(event: Event, pid: Seq<char>, view: ProcessView)
    requires
        says(event, pid, view),
    ensures
        match view {
            ProcessView::Output { stream, data } => event matches Event::Output {
                pid: p,
                stream: t,
                data: d,
            } && p@ == pid && t == stream && d@ == data,
            ProcessView::Exit { code } => event matches Event::Exit { pid: p, code: c } && p@
                == pid && c == code,
        },
        stream_text(Stream::Stdout) == "stdout"@,
        stream_text(Stream::Stderr) == "stderr"@,
{
}

/// The bytes that a process wrote to a stream, as its frames carry them until one ends it.
pub open spec fn written(reads: Seq<Received<ProcessFrame>>, stream: Stream) -> Seq<u8>
    decreases reads.len(),
{
    if reads.len() == 0 {
        Seq::empty()
    } else {
        let rest = written(reads.drop_first(), stream);
        match reads[0] {
            Received::Frame { frame: ProcessFrame::Stdout { data } } => if stream
                == Stream::Stdout {
                data@ + rest
            } else {
                rest
            },
            Received::Frame { frame: ProcessFrame::Stderr { data } } => if stream
                == Stream::Stderr {
                data@ + rest
            } else {
                rest
            },
            Received::Frame { frame: ProcessFrame::Error { payload } } => if stream
                == Stream::Stderr {
                payload@
            } else {
                Seq::empty()
            },
            _ => Seq::empty(),
        }
    }
}

/// The bytes that are reported of a stream.
pub open spec fn told(views: Seq<ProcessView>, stream: Stream) -> Seq<u8>
    decreases views.len(),
{
    if views.len() == 0 {
        Seq::empty()
    } else {
        let rest = told(views.drop_first(), stream);
        match views[0] {
            ProcessView::Output { stream: s, data } if s == stream => data + rest,
            _ => rest,
        }
    }
}

/// Over a whole run, what is reported of each stream of a process is what the process
/// wrote to it, in order, and nothing after its end.
pub proof fn law_output_is_reported_in_full(reads: Seq<Received<ProcessFrame>>, stream: Stream)
    ensures
        told(run_views(reads), stream) == written(reads, stream),
    decreases reads.len(),
{
    reveal_with_fuel(told, 3);
    if reads.len() > 0 {
        law_process_frames_are_reported(reads[0]);
        let v = process_views(reads[0]);
        let rest = reads.drop_first();
        if process_ends(reads[0]) {
            assert(run_views(reads) == v);
            if v.len() == 1 {
                assert(v.drop_first() =~= Seq::empty());
            } else {
                assert(v.drop_first().drop_first() =~= Seq::empty());
                assert(v.drop_first()[0] == v[1]);
            }
            assert(told(run_views(reads), stream) =~= written(reads, stream));
        } else {
            law_output_is_reported_in_full(rest, stream);
            assert((v + run_views(rest)).drop_first() =~= run_views(rest));
            assert((v + run_views(rest))[0] == v[0]);
        }
    }
}

/// The response to a command carries the output of both streams and the exit code, and
/// the response to one that failed says why, each under the request's id.
pub proof fn law_commands_are_answered<I>(
    id: I,
    outcome: Result<(ExecOutput, i32), String>,
    r: Response<I>,
)
    requires
        is_exec_response(id, outcome, r),
    ensures
        r.id == Some(id),
        outcome matches Ok(o) ==> (r.body matches Body::Exec { stdout, stderr, exit_code }
            && stdout@ == lossy_text(o.0.stdout@) && stderr@ == lossy_text(o.0.stderr@)
            && exit_code == o.1),
        outcome matches Err(why) ==> (r.body matches Body::Error { code, message } && code
            == -32000 && message@ == "exec failed: "@ + why@),
{
}

/// An error response carries the id, the code and the message that were given, and the
/// codes are those of JSON-RPC 2.0.
pub proof fn law_errors_say_what_they_are<I>(
    r: Response<I>,
    id: Option<I>,
    code: i32,
    message: Seq<char>,
    request: I,
)
    ensures
        r.is_error(id, code, message) <==> r.id == id && (r.body matches Body::Error {
            code: c,
            message: m,
        } && c == code && m@ == message),
        r.is_empty_result(request) <==> r.id == Some(request) && r.body is Empty,
        PARSE_ERROR == -32700,
        METHOD_NOT_FOUND == -32601,
        INVALID_PARAMS == -32602,
        SERVER_ERROR == -32000,
{
}

/// A process is over where it exits, the guest reports an error, something unknown comes or
/// the connection ends, and goes on while it writes.
pub proof fn law_processes_go_on_while_they_write(read: Received<ProcessFrame>)
    ensures
        !process_ends(read) <==> (read matches Received::Frame { frame } && (frame is Stdout
            || frame is Stderr)),
{
}

} // verus!
