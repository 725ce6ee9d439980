//! The small grammars of command-line flags: mounts, port forwards and secrets.

use crate::guest::PortMapping;
use crate::machine::MountConfig;
use crate::paths::{is_absolute, is_absolute_path, is_root, is_root_path, is_within, path_within};
use crate::text::{
    cat3, cut_all, cut_at_most, cut_once, decimal_text, law_cut_again,
    law_decimal_reads_back, law_trimmed_stays, parse_u16, split, split_at_most, split_once, str_eq,
    texts, trim, trimmed, unsigned_number,
};
use vstd::prelude::*;

verus! {

/// What is wrong with a mount.
#[derive(Debug)]
pub enum MountError {
    Format,
    HostMissing { path: String },
    GuestRelative { guest: String },
    Mode { mode: String },
    NoCwd,
    UnresolvedCwd,
    RootCwd,
    RootHost,
    OutsideCwd { host: String, cwd: String },
    HostWrites { host: String, guest: String },
}

/// The message of a mount error.
pub open spec fn mount_error_text(e: MountError) -> Seq<char> {
    match e {
        MountError::Format => "expected HOST:GUEST[:ro|rw] format (e.g. ./src:/workspace:rw)"@,
        MountError::HostMissing { path } => "host path does not exist: '"@ + path@ + "'"@,
        MountError::GuestRelative { guest } => "guest path must be absolute (start with /): '"@
            + guest@ + "'"@,
        MountError::Mode { mode } => "invalid mount mode '"@ + mode@
            + "': expected 'ro' or 'rw'"@,
        MountError::NoCwd => "failed to determine current working directory"@,
        MountError::UnresolvedCwd => "failed to canonicalize current working directory"@,
        MountError::RootCwd =>
            "cannot use mounts when the current working directory is '/'. Change to a project directory first."@,
        MountError::RootHost =>
            "mounting '/' as a host path is not allowed. Mount a specific subdirectory instead."@,
        MountError::OutsideCwd { host, cwd } => "mount host path '"@ + host@
            + "' is outside the current working directory '"@ + cwd@
            + "'. Only paths within CWD can be mounted."@,
        MountError::HostWrites { host, guest } => "read-write mount '"@ + host@ + ":"@ + guest@
            + ":rw' requires --allow-host-writes flag (or \"allow_host_writes\": true in config)."@,
    }
}

impl MountError {
    /// The message of this error.
    pub fn to_string(&self) -> (r: String)
        ensures
            r@ == mount_error_text(*self),
    {
        match self {
            MountError::Format =>
                "expected HOST:GUEST[:ro|rw] format (e.g. ./src:/workspace:rw)".to_owned(),
            MountError::HostMissing { path } => cat3(
                "host path does not exist: '",
                path.as_str(),
                "'",
            ),
            MountError::GuestRelative { guest } => cat3(
                "guest path must be absolute (start with /): '",
                guest.as_str(),
                "'",
            ),
            MountError::Mode { mode } => cat3(
                "invalid mount mode '",
                mode.as_str(),
                "': expected 'ro' or 'rw'",
            ),
            MountError::NoCwd => "failed to determine current working directory".to_owned(),
            MountError::UnresolvedCwd =>
                "failed to canonicalize current working directory".to_owned(),
            MountError::RootCwd =>
                "cannot use mounts when the current working directory is '/'. Change to a project directory first.".to_owned(),
            MountError::RootHost =>
                "mounting '/' as a host path is not allowed. Mount a specific subdirectory instead.".to_owned(),
            MountError::OutsideCwd { host, cwd } => {
                let mut r = cat3(
                    "mount host path '",
                    host.as_str(),
                    "' is outside the current working directory '",
                );
                r.append(cwd.as_str());
                r.append("'. Only paths within CWD can be mounted.");
                r
            },
            MountError::HostWrites { host, guest } => {
                let mut r = cat3("read-write mount '", host.as_str(), ":");
                r.append(guest.as_str());
                r.append(
                    ":rw' requires --allow-host-writes flag (or \"allow_host_writes\": true in config).",
                );
                r
            },
        }
    }
}

/// Whether a mount mode asks for a read-only mount, which is also the default.
pub open spec fn mode_read_only(mode: Option<Seq<char>>) -> Option<bool> {
    match mode {
        None => Some(true),
        Some(m) => if m == "ro"@ {
            Some(true)
        } else if m == "rw"@ {
            Some(false)
        } else {
            None
        },
    }
}

/// Whether the parts of a mount make that result.
pub open spec fn is_mount_of(
    host: Seq<char>,
    guest: Seq<char>,
    mode: Option<Seq<char>>,
    r: Result<MountConfig, MountError>,
) -> bool {
    if !is_absolute(guest) {
        r matches Err(MountError::GuestRelative { guest: g }) && g@ == guest
    } else {
        match mode_read_only(mode) {
            Some(read_only) => r matches Ok(c) && c.host_path@ == host && c.guest_path@ == guest
                && c.read_only == read_only,
            None => r matches Err(MountError::Mode { mode: m }) && Some(m@) == mode,
        }
    }
}

/// Whether a mount specification makes that result, where `canonical` is the
/// resolved path of its host part, if there is something at that path.
pub open spec fn is_mount_spec(
    s: Seq<char>,
    canonical: Option<Seq<char>>,
    r: Result<MountConfig, MountError>,
) -> bool {
    let parts = cut_at_most(s, ':', 3);
    if parts.len() < 2 {
        r == Err::<MountConfig, _>(MountError::Format)
    } else {
        match canonical {
            None => r matches Err(MountError::HostMissing { path }) && path@ == parts[0],
            Some(host) => is_mount_of(
                host,
                parts[1],
                if parts.len() > 2 {
                    Some(parts[2])
                } else {
                    None
                },
                r,
            ),
        }
    }
}

/// Whether a mount specification is right, where `canonical` is the resolved path of
/// its host part, if there is something at that path.
pub open spec fn mount_spec_ok(s: Seq<char>, canonical: Option<Seq<char>>) -> bool {
    let parts = cut_at_most(s, ':', 3);
    &&& parts.len() >= 2
    &&& canonical is Some
    &&& is_absolute(parts[1])
    &&& mode_read_only(
        if parts.len() > 2 {
            Some(parts[2])
        } else {
            None
        },
    ) is Some
}

/// The text of an optional string slice.
pub open spec fn str_text(s: Option<&str>) -> Option<Seq<char>> {
    match s {
        Some(t) => Some(t@),
        None => None,
    }
}

/// Checks the parts of a mount.
pub fn parse_mount_parts(host: &str, guest: &str, mode: Option<&str>) -> (r: Result<
    MountConfig,
    MountError,
>)
    ensures
        is_mount_of(host@, guest@, str_text(mode), r),
{
    if !is_absolute_path(guest) {
        return Err(MountError::GuestRelative { guest: guest.to_owned() });
    }
    let read_only = match mode {
        None => true,
        Some(m) => if str_eq(m, "ro") {
            true
        } else if str_eq(m, "rw") {
            false
        } else {
            return Err(MountError::Mode { mode: m.to_owned() });
        },
    };
    Ok(MountConfig { host_path: host.to_owned(), guest_path: guest.to_owned(), read_only })
}

/// The host part of a mount specification, if there is one to resolve.
pub open spec fn mount_host_text(s: Seq<char>) -> Option<Seq<char>> {
    let parts = cut_at_most(s, ':', 3);
    if parts.len() < 2 {
        None
    } else {
        Some(parts[0])
    }
}

/// The host part of a mount specification, which is to be resolved before the
/// specification is parsed.
pub fn mount_host(s: &str) -> (r: Option<String>)
    ensures
        match r {
            Some(host) => mount_host_text(s@) == Some(host@),
            None => mount_host_text(s@) is None,
        },
{
    let parts = split_at_most(s, ':', 3);
    assert(texts(parts@).len() == parts@.len());
    if parts.len() < 2 {
        None
    } else {
        assert(texts(parts@)[0] == parts@[0]@);
        Some(parts[0].clone())
    }
}

/// Parses `HOST:GUEST[:ro|rw]`, where `canonical` is the resolved path of the host
/// part, if there is something at that path.
pub fn parse_mount_spec(s: &str, canonical: Option<&str>) -> (r: Result<MountConfig, MountError>)
    ensures
        is_mount_spec(s@, str_text(canonical), r),
        r is Ok == mount_spec_ok(s@, str_text(canonical)),
{
    let parts = split_at_most(s, ':', 3);
    assert(texts(parts@).len() == parts@.len());
    if parts.len() < 2 {
        return Err(MountError::Format);
    }
    assert(texts(parts@)[0] == parts@[0]@);
    assert(texts(parts@)[1] == parts@[1]@);
    let host = match canonical {
        None => return Err(MountError::HostMissing { path: parts[0].clone() }),
        Some(path) => path,
    };
    if parts.len() > 2 {
        assert(texts(parts@)[2] == parts@[2]@);
        parse_mount_parts(host, parts[1].as_str(), Some(parts[2].as_str()))
    } else {
        parse_mount_parts(host, parts[1].as_str(), None)
    }
}

/// Whether a mount may be made from that working directory.
pub open spec fn mount_allowed(m: MountConfig, allow_host_writes: bool, cwd: Seq<char>) -> bool {
    &&& !is_root(m.host_path@)
    &&& is_within(m.host_path@, cwd)
    &&& m.read_only || allow_host_writes
}

/// Whether that is the first thing wrong with a mount.
pub open spec fn is_mount_fault(
    m: MountConfig,
    allow_host_writes: bool,
    cwd: Seq<char>,
    e: MountError,
) -> bool {
    if is_root(m.host_path@) {
        e == MountError::RootHost
    } else if !is_within(m.host_path@, cwd) {
        e matches MountError::OutsideCwd { host, cwd: c } && host@ == m.host_path@ && c@ == cwd
    } else {
        &&& !m.read_only && !allow_host_writes
        &&& e matches MountError::HostWrites { host, guest } && host@ == m.host_path@ && guest@
            == m.guest_path@
    }
}

/// Whether the mounts, taken in order, give that result.
pub open spec fn mounts_checked(
    mounts: Seq<MountConfig>,
    allow_host_writes: bool,
    cwd: Seq<char>,
    r: Result<(), MountError>,
) -> bool {
    if is_root(cwd) {
        r == Err::<(), _>(MountError::RootCwd)
    } else {
        match r {
            Ok(_) => forall|i: int|
                0 <= i < mounts.len() ==> mount_allowed(
                    #[trigger] mounts[i],
                    allow_host_writes,
                    cwd,
                ),
            Err(e) => exists|k: int|
                {
                    &&& 0 <= k < mounts.len()
                    &&& is_mount_fault(#[trigger] mounts[k], allow_host_writes, cwd, e)
                    &&& forall|i: int|
                        0 <= i < k ==> mount_allowed(
                            #[trigger] mounts[i],
                            allow_host_writes,
                            cwd,
                        )
                },
        }
    }
}

/// Without the permission to write to the host, no mount that passes is writable;
/// and whatever passes lies within the working directory and is not the root.
pub proof fn law_mounts_stay_inside(
    mounts: Seq<MountConfig>,
    allow_host_writes: bool,
    cwd: Seq<char>,
    i: int,
)
    requires
        mounts_checked(mounts, allow_host_writes, cwd, Ok(())),
        0 <= i < mounts.len(),
    ensures
        is_within(mounts[i].host_path@, cwd),
        !is_root(mounts[i].host_path@),
        !allow_host_writes ==> mounts[i].read_only,
{
    assert(mount_allowed(mounts[i], allow_host_writes, cwd));
}

/// Checks mounts against the working directory.
pub fn validate_mounts_with_cwd(
    mounts: &Vec<MountConfig>,
    allow_host_writes: bool,
    cwd: &str,
) -> (r: Result<(), MountError>)
    ensures
        mounts_checked(mounts@, allow_host_writes, cwd@, r),
{
    if is_root_path(cwd) {
        return Err(MountError::RootCwd);
    }
    let mut i: usize = 0;
    while i < mounts.len()
        invariant
            i <= mounts@.len(),
            !is_root(cwd@),
            forall|j: int|
                0 <= j < i ==> mount_allowed(#[trigger] mounts@[j], allow_host_writes, cwd@),
        decreases mounts@.len() - i,
    {
        let m = &mounts[i];
        let fault = if is_root_path(m.host_path.as_str()) {
            Some(MountError::RootHost)
        } else if !path_within(m.host_path.as_str(), cwd) {
            Some(MountError::OutsideCwd { host: m.host_path.clone(), cwd: cwd.to_owned() })
        } else if !m.read_only && !allow_host_writes {
            Some(
                MountError::HostWrites { host: m.host_path.clone(), guest: m.guest_path.clone() },
            )
        } else {
            None
        };
        if let Some(e) = fault {
            assert(is_mount_fault(mounts@[i as int], allow_host_writes, cwd@, e));
            return Err(e);
        }
        i += 1;
    }
    Ok(())
}

/// What is wrong with a port forward.
#[derive(Debug)]
pub enum PortError {
    Format,
    HostPort { text: String },
    GuestPort { text: String },
}

/// The message of a port error.
pub open spec fn port_error_text(e: PortError) -> Seq<char> {
    match e {
        PortError::Format => "expected HOST:GUEST format (e.g. 8080:80)"@,
        PortError::HostPort { text } => "invalid host port: '"@ + text@ + "'"@,
        PortError::GuestPort { text } => "invalid guest port: '"@ + text@ + "'"@,
    }
}

impl PortError {
    /// The message of this error.
    pub fn to_string(&self) -> (r: String)
        ensures
            r@ == port_error_text(*self),
    {
        match self {
            PortError::Format => "expected HOST:GUEST format (e.g. 8080:80)".to_owned(),
            PortError::HostPort { text } => cat3("invalid host port: '", text.as_str(), "'"),
            PortError::GuestPort { text } => cat3("invalid guest port: '", text.as_str(), "'"),
        }
    }
}

/// Whether a port forward makes that result.
pub open spec fn is_port_mapping(s: Seq<char>, r: Result<PortMapping, PortError>) -> bool {
    let parts = cut_all(s, ':');
    if parts.len() != 2 {
        r == Err::<PortMapping, _>(PortError::Format)
    } else {
        match (unsigned_number(parts[0], 0xffff), unsigned_number(parts[1], 0xffff)) {
            (None, _) => r matches Err(PortError::HostPort { text }) && text@ == parts[0],
            (Some(_), None) => r matches Err(PortError::GuestPort { text }) && text@ == parts[1],
            (Some(h), Some(g)) => r matches Ok(m) && m.host_port == h && m.guest_port == g,
        }
    }
}

/// The port forward that a text describes, if it describes one.
pub open spec fn port_of(s: Seq<char>) -> Option<PortMapping> {
    let parts = cut_all(s, ':');
    if parts.len() != 2 {
        None
    } else {
        match (unsigned_number(parts[0], 0xffff), unsigned_number(parts[1], 0xffff)) {
            (Some(h), Some(g)) => Some(
                PortMapping { host_port: h as u16, guest_port: g as u16 },
            ),
            _ => None,
        }
    }
}

/// Parses `HOST:GUEST`.
pub fn parse_port_mapping(s: &str) -> (r: Result<PortMapping, PortError>)
    ensures
        is_port_mapping(s@, r),
        match r {
            Ok(m) => port_of(s@) == Some(m),
            Err(_) => port_of(s@) is None,
        },
{
    let parts = split(s, ':');
    assert(texts(parts@).len() == parts@.len());
    if parts.len() != 2 {
        return Err(PortError::Format);
    }
    assert(texts(parts@)[0] == parts@[0]@);
    assert(texts(parts@)[1] == parts@[1]@);
    let host_port = match parse_u16(parts[0].as_str()) {
        Some(n) => n,
        None => return Err(PortError::HostPort { text: parts[0].clone() }),
    };
    let guest_port = match parse_u16(parts[1].as_str()) {
        Some(n) => n,
        None => return Err(PortError::GuestPort { text: parts[1].clone() }),
    };
    Ok(PortMapping { host_port, guest_port })
}

/// What is wrong with a secret.
#[derive(Debug, Clone, Copy, PartialEq, Eq, Structural)]
pub enum SecretError {
    NoEquals,
    NoAt,
    Empty,
}

/// The message of a secret error.
pub open spec fn secret_error_text(e: SecretError) -> Seq<char> {
    match e {
        SecretError::NoEquals => "missing '=' separator"@,
        SecretError::NoAt => "missing '@' separator for hosts"@,
        SecretError::Empty => "name, env var, and hosts must all be non-empty"@,
    }
}

impl SecretError {
    /// The message of this error.
    pub fn to_string(&self) -> (r: String)
        ensures
            r@ == secret_error_text(*self),
    {
        match self {
            SecretError::NoEquals => "missing '=' separator".to_owned(),
            SecretError::NoAt => "missing '@' separator for hosts".to_owned(),
            SecretError::Empty => "name, env var, and hosts must all be non-empty".to_owned(),
        }
    }
}

/// Every text without the white space around it.
pub open spec fn all_trimmed(v: Seq<Seq<char>>) -> Seq<Seq<char>> {
    Seq::new(v.len(), |i: int| trimmed(v[i]))
}

/// The name, the host variable and the hosts of a secret flag.
pub open spec fn secret_of(s: Seq<char>) -> Result<
    (Seq<char>, Seq<char>, Seq<Seq<char>>),
    SecretError,
> {
    match cut_once(s, '=') {
        None => Err(SecretError::NoEquals),
        Some((name, rest)) => match cut_once(rest, '@') {
            None => Err(SecretError::NoAt),
            Some((from, hosts)) => if name.len() == 0 || from.len() == 0 {
                Err(SecretError::Empty)
            } else {
                Ok((name, from, all_trimmed(cut_all(hosts, ','))))
            },
        },
    }
}

/// The view of a parsed secret flag.
pub open spec fn secret_view(r: Result<(String, String, Vec<String>), SecretError>) -> Result<
    (Seq<char>, Seq<char>, Seq<Seq<char>>),
    SecretError,
> {
    match r {
        Ok((name, from, hosts)) => Ok((name@, from@, texts(hosts@))),
        Err(e) => Err(e),
    }
}

/// Parses `NAME=ENV_VAR@host1,host2` into the name, the variable and the hosts.
pub fn parse_secret_flag(s: &str) -> (r: Result<(String, String, Vec<String>), SecretError>)
    ensures
        secret_view(r) == secret_of(s@),
{
    let (name, rest) = match split_once(s, '=') {
        Some(parts) => parts,
        None => return Err(SecretError::NoEquals),
    };
    let (from, hosts_text) = match split_once(rest.as_str(), '@') {
        Some(parts) => parts,
        None => return Err(SecretError::NoAt),
    };
    let pieces = split(hosts_text.as_str(), ',');
    let ghost all = cut_all(hosts_text@, ',');
    let mut hosts: Vec<String> = Vec::new();
    let mut i: usize = 0;
    while i < pieces.len()
        invariant
            i <= pieces@.len(),
            texts(pieces@) == all,
            hosts@.len() == i,
            forall|j: int| 0 <= j < i ==> (#[trigger] hosts@[j])@ == trimmed(all[j]),
        decreases pieces@.len() - i,
    {
        assert(texts(pieces@)[i as int] == pieces@[i as int]@);
        hosts.push(trim(pieces[i].as_str()));
        i += 1;
    }
    assert(texts(pieces@).len() == pieces@.len());
    assert(texts(hosts@) =~= all_trimmed(all));
    if name.as_str().is_empty() || from.as_str().is_empty() {
        return Err(SecretError::Empty);
    }
    Ok((name, from, hosts))
}

proof fn lemma_mount_pieces(host: Seq<char>, guest: Seq<char>, mode: Seq<char>)
    requires
        !host.contains(':'),
        !guest.contains(':'),
    ensures
        cut_at_most(host, ':', 3) == seq![host],
        cut_at_most(host + seq![':'] + guest, ':', 3) == seq![host, guest],
        cut_at_most(host + seq![':'] + guest + seq![':'] + mode, ':', 3) == seq![
            host,
            guest,
            mode,
        ],
{
    reveal_with_fuel(cut_at_most, 4);
    law_cut_again(host, ':', guest);
    law_cut_again(guest, ':', mode);
    let rest = guest + seq![':'] + mode;
    assert(host + seq![':'] + guest + seq![':'] + mode =~= host + seq![':'] + rest);
    law_cut_again(host, ':', rest);
    assert(cut_at_most(rest, ':', 2) =~= seq![guest, mode]);
    assert(cut_at_most(guest, ':', 2) =~= seq![guest]);
    assert(cut_at_most(host + seq![':'] + guest, ':', 3) =~= seq![host, guest]);
    assert(cut_at_most(host + seq![':'] + rest, ':', 3) =~= seq![host, guest, mode]);
}

/// `HOST:GUEST` and `HOST:GUEST:MODE` mount what the host's path resolves to at the
/// guest's path: read-only, unless the mode is "rw". Both paths and the mode are checked,
/// the host's path first, then the guest's, which has to start with "/".
pub proof fn law_mount_specs_mean_what_they_say(
    host: Seq<char>,
    guest: Seq<char>,
    mode: Option<Seq<char>>,
    canonical: Option<Seq<char>>,
    r: Result<MountConfig, MountError>,
)
    requires
        !host.contains(':'),
        !guest.contains(':'),
        is_mount_spec(
            host + seq![':'] + guest + (match mode {
                Some(m) => seq![':'] + m,
                None => Seq::empty(),
            }),
            canonical,
            r,
        ),
    ensures
        ({
            let known = mode is None || mode == Some("ro"@) || mode == Some("rw"@);
            let absolute = guest.len() > 0 && guest[0] == '/';
            &&& r is Ok <==> canonical is Some && absolute && known
            &&& r matches Ok(m) ==> Some(m.host_path@) == canonical && m.guest_path@ == guest
                && m.read_only == (mode != Some("rw"@))
            &&& canonical is None ==> (r matches Err(MountError::HostMissing { path }) && path@
                == host)
            &&& canonical is Some && !absolute ==> (r matches Err(
                MountError::GuestRelative { guest: g },
            ) && g@ == guest)
            &&& canonical is Some && absolute && !known ==> (r matches Err(
                MountError::Mode { mode: m },
            ) && Some(m@) == mode)
        }),
{
    reveal_strlit("ro");
    reveal_strlit("rw");
    assert("ro"@[1] != "rw"@[1]);
    match mode {
        Some(m) => {
            lemma_mount_pieces(host, guest, m);
            assert(host + seq![':'] + guest + (seq![':'] + m) =~= host + seq![':'] + guest + seq![
                ':',
            ] + m);
        },
        None => {
            lemma_mount_pieces(host, guest, Seq::empty());
            assert(host + seq![':'] + guest + Seq::<char>::empty() =~= host + seq![':'] + guest);
        },
    }
}

/// What holds no ":" is no mount, and has no host part to resolve; what holds one has the
/// part before it.
pub proof fn law_mounts_have_two_paths(
    host: Seq<char>,
    rest: Seq<char>,
    canonical: Option<Seq<char>>,
    r: Result<MountConfig, MountError>,
)
    requires
        !host.contains(':'),
    ensures
        mount_host_text(host) is None,
        mount_host_text(host + seq![':'] + rest) == Some(host),
        is_mount_spec(host, canonical, r) ==> r == Err::<MountConfig, _>(MountError::Format),
{
    lemma_mount_pieces(host, Seq::empty(), Seq::empty());
    law_cut_again(host, ':', rest);
    reveal_with_fuel(cut_at_most, 3);
}

/// A specification is right exactly where it is read as a mount.
pub proof fn law_right_mounts_are_read(
    s: Seq<char>,
    canonical: Option<Seq<char>>,
    r: Result<MountConfig, MountError>,
)
    requires
        is_mount_spec(s, canonical, r),
    ensures
        r is Ok <==> mount_spec_ok(s, canonical),
{
}

/// Mounts are refused as a whole where the working directory is the root; otherwise the
/// first one is refused that is the root itself, lies outside of the working directory, or
/// is writable without the permission to write to the host, and nothing else is.
pub proof fn law_mounts_are_refused_for_a_reason(
    mounts: Seq<MountConfig>,
    allow_host_writes: bool,
    cwd: Seq<char>,
    r: Result<(), MountError>,
)
    requires
        mounts_checked(mounts, allow_host_writes, cwd, r),
    ensures
        r is Ok <==> !is_root(cwd) && forall|i: int|
            0 <= i < mounts.len() ==> !is_root((#[trigger] mounts[i]).host_path@) && is_within(
                mounts[i].host_path@,
                cwd,
            ) && (mounts[i].read_only || allow_host_writes),
        match r {
            Ok(_) => true,
            Err(MountError::RootCwd) => is_root(cwd),
            Err(MountError::RootHost) => exists|k: int|
                0 <= k < mounts.len() && is_root((#[trigger] mounts[k]).host_path@),
            Err(MountError::OutsideCwd { host, cwd: c }) => c@ == cwd && exists|k: int|
                0 <= k < mounts.len() && (#[trigger] mounts[k]).host_path@ == host@ && !is_within(
                    host@,
                    cwd,
                ),
            Err(MountError::HostWrites { host, guest }) => !allow_host_writes && exists|k: int|
                0 <= k < mounts.len() && (#[trigger] mounts[k]).host_path@ == host@
                    && mounts[k].guest_path@ == guest@ && !mounts[k].read_only,
            Err(_) => false,
        },
{
    if r is Ok && !is_root(cwd) {
        assert forall|i: int| 0 <= i < mounts.len() implies !is_root(
            (#[trigger] mounts[i]).host_path@,
        ) && is_within(mounts[i].host_path@, cwd) && (mounts[i].read_only || allow_host_writes) by {
            assert(mount_allowed(mounts[i], allow_host_writes, cwd));
        }
    }
    if let Err(e) = r {
        if !is_root(cwd) {
            let k = choose|k: int|
                {
                    &&& 0 <= k < mounts.len()
                    &&& is_mount_fault(#[trigger] mounts[k], allow_host_writes, cwd, e)
                    &&& forall|i: int|
                        0 <= i < k ==> mount_allowed(
                            #[trigger] mounts[i],
                            allow_host_writes,
                            cwd,
                        )
                };
            assert(is_mount_fault(mounts[k], allow_host_writes, cwd, e));
        }
    }
}

/// A port forward that is written out is read back: the host's port stands first.
pub proof fn law_port_mappings_read_back(m: PortMapping)
    ensures
        port_of(
            decimal_text(m.host_port as nat) + seq![':'] + decimal_text(m.guest_port as nat),
        ) == Some(m),
{
    let h = decimal_text(m.host_port as nat);
    let g = decimal_text(m.guest_port as nat);
    law_decimal_reads_back(m.host_port as nat, 0xffff);
    law_decimal_reads_back(m.guest_port as nat, 0xffff);
    law_cut_again(h, ':', g);
    law_cut_again(g, ':', Seq::empty());
    assert(cut_all(h + seq![':'] + g, ':') =~= seq![h, g]);
}

/// A port forward is two numbers with one ":" between them, the first of which is the
/// host's port; each number that is none is named.
pub proof fn law_port_mappings_are_two_ports(
    host: Seq<char>,
    guest: Seq<char>,
    r: Result<PortMapping, PortError>,
)
    requires
        !host.contains(':'),
        !guest.contains(':'),
        is_port_mapping(host + seq![':'] + guest, r),
    ensures
        match (unsigned_number(host, 65535), unsigned_number(guest, 65535)) {
            (Some(h), Some(g)) => r matches Ok(m) && m.host_port == h && m.guest_port == g
                && port_of(host + seq![':'] + guest) == Some(m),
            (None, _) => (r matches Err(PortError::HostPort { text }) && text@ == host) && port_of(
                host + seq![':'] + guest,
            ) is None,
            (_, None) => (r matches Err(PortError::GuestPort { text }) && text@ == guest)
                && port_of(host + seq![':'] + guest) is None,
        },
{
    law_cut_again(host, ':', guest);
    law_cut_again(guest, ':', Seq::empty());
    assert(cut_all(host + seq![':'] + guest, ':') =~= seq![host, guest]);
}

/// What holds no ":", or more than one, is no port forward.
pub proof fn law_port_mappings_have_one_colon(
    a: Seq<char>,
    b: Seq<char>,
    c: Seq<char>,
    r: Result<PortMapping, PortError>,
)
    requires
        !a.contains(':'),
        !b.contains(':'),
    ensures
        port_of(a) is None,
        port_of(a + seq![':'] + (b + seq![':'] + c)) is None,
        is_port_mapping(a, r) ==> r == Err::<PortMapping, _>(PortError::Format),
        is_port_mapping(a + seq![':'] + (b + seq![':'] + c), r) ==> r == Err::<PortMapping, _>(
            PortError::Format,
        ),
{
    law_cut_again(a, ':', b + seq![':'] + c);
    law_cut_again(b, ':', c);
    crate::text::law_cut_all(c, ':');
}

/// `NAME=VAR@HOSTS` names a secret by what is before the first "=", the host's variable by
/// what follows up to the next "@", and the hosts by the rest; it needs a name and a
/// variable.
pub proof fn law_secret_flags_mean_what_they_say(
    name: Seq<char>,
    from: Seq<char>,
    hosts: Seq<char>,
)
    requires
        !name.contains('='),
        !from.contains('@'),
    ensures
        ({
            let r = secret_of(name + seq!['='] + (from + seq!['@'] + hosts));
            if name.len() > 0 && from.len() > 0 {
                r matches Ok(x) && x.0 == name && x.1 == from && x.2 == all_trimmed(
                    cut_all(hosts, ','),
                )
            } else {
                r == Err::<(Seq<char>, Seq<char>, Seq<Seq<char>>), _>(SecretError::Empty)
            }
        }),
        secret_of(name) == Err::<(Seq<char>, Seq<char>, Seq<Seq<char>>), _>(SecretError::NoEquals),
        secret_of(name + seq!['='] + from) == Err::<(Seq<char>, Seq<char>, Seq<Seq<char>>), _>(
            SecretError::NoAt,
        ),
{
    law_cut_again(name, '=', from + seq!['@'] + hosts);
    law_cut_again(name, '=', from);
    law_cut_again(from, '@', hosts);
}

/// The hosts of a secret are listed with "," between them: one host is a list of its own,
/// and one more in front of a list comes first. White space around a host does not count.
pub proof fn law_hosts_are_listed(host: Seq<char>, more: Seq<char>)
    requires
        !host.contains(','),
    ensures
        all_trimmed(cut_all(host, ',')) == seq![trimmed(host)],
        all_trimmed(cut_all(host + seq![','] + more, ',')) == seq![trimmed(host)] + all_trimmed(
            cut_all(more, ','),
        ),
        host.len() > 0 && !crate::text::is_space(host[0]) && !crate::text::is_space(host.last())
            ==> trimmed(host) == host,
{
    law_cut_again(host, ',', more);
    assert(all_trimmed(cut_all(host, ',')) =~= seq![trimmed(host)]);
    assert(all_trimmed(cut_all(host + seq![','] + more, ',')) =~= seq![trimmed(host)]
        + all_trimmed(cut_all(more, ',')));
    if host.len() > 0 && !crate::text::is_space(host[0]) && !crate::text::is_space(host.last()) {
        law_trimmed_stays(host);
    }
}

/// What was read of a secret flag is its name, its variable and its hosts, in that order.
pub proof fn law_secrets_are_read_in_order(
    name: String,
    from: String,
    hosts: Vec<String>,
    e: SecretError,
)
    ensures
        secret_view(Ok((name, from, hosts))) == Ok::<
            (Seq<char>, Seq<char>, Seq<Seq<char>>),
            SecretError,
        >((name@, from@, texts(hosts@))),
        secret_view(Err(e)) == Err::<(Seq<char>, Seq<char>, Seq<Seq<char>>), SecretError>(e),
{
}

/// The parts of a mount make a mount from the host's path to the guest's: read-only,
/// unless the mode is "rw"; the guest's path has to start with "/", and the mode to be
/// "ro" or "rw" if there is one.
pub proof fn law_mount_parts_mean_what_they_say(
    host: Seq<char>,
    guest: Seq<char>,
    mode: Option<&str>,
    r: Result<MountConfig, MountError>,
)
    requires
        is_mount_of(host, guest, str_text(mode), r),
    ensures
        ({
            let known = mode matches Some(m) ==> m@ == "ro"@ || m@ == "rw"@;
            let writable = mode matches Some(m) && m@ == "rw"@;
            let absolute = guest.len() > 0 && guest[0] == '/';
            &&& r is Ok <==> absolute && known
            &&& r matches Ok(m) ==> m.host_path@ == host && m.guest_path@ == guest && m.read_only
                == !writable
            &&& !absolute ==> (r matches Err(MountError::GuestRelative { guest: g }) && g@ == guest)
            &&& absolute && !known ==> (r matches Err(MountError::Mode { mode: m }) && mode is Some
                && m@ == mode->0@)
        }),
{
    reveal_strlit("ro");
    reveal_strlit("rw");
    assert("ro"@[1] != "rw"@[1]);
}

/// A message says what is wrong with a mount and names it.
pub proof fn law_mount_messages_name_the_mount(a: String, b: String)
    ensures
        mount_error_text(MountError::HostMissing { path: a }) == "host path does not exist: '"@ + a@
            + "'"@,
        mount_error_text(MountError::GuestRelative { guest: a })
            == "guest path must be absolute (start with /): '"@ + a@ + "'"@,
        mount_error_text(MountError::Mode { mode: a }) == "invalid mount mode '"@ + a@
            + "': expected 'ro' or 'rw'"@,
        mount_error_text(MountError::OutsideCwd { host: a, cwd: b }) == "mount host path '"@ + a@
            + "' is outside the current working directory '"@ + b@
            + "'. Only paths within CWD can be mounted."@,
        mount_error_text(MountError::HostWrites { host: a, guest: b }) == "read-write mount '"@
            + a@ + ":"@ + b@
            + ":rw' requires --allow-host-writes flag (or \"allow_host_writes\": true in config)."@,
        port_error_text(PortError::HostPort { text: a }) == "invalid host port: '"@ + a@ + "'"@,
        port_error_text(PortError::GuestPort { text: a }) == "invalid guest port: '"@ + a@ + "'"@,
{
}

/// A message that names nothing says what is expected or not possible.
pub proof fn law_messages_say_what_is_expected()
    ensures
        mount_error_text(MountError::Format)
            == "expected HOST:GUEST[:ro|rw] format (e.g. ./src:/workspace:rw)"@,
        mount_error_text(MountError::NoCwd) == "failed to determine current working directory"@,
        mount_error_text(MountError::UnresolvedCwd)
            == "failed to canonicalize current working directory"@,
        mount_error_text(MountError::RootCwd)
            == "cannot use mounts when the current working directory is '/'. Change to a project directory first."@,
        mount_error_text(MountError::RootHost)
            == "mounting '/' as a host path is not allowed. Mount a specific subdirectory instead."@,
        port_error_text(PortError::Format) == "expected HOST:GUEST format (e.g. 8080:80)"@,
        secret_error_text(SecretError::NoEquals) == "missing '=' separator"@,
        secret_error_text(SecretError::NoAt) == "missing '@' separator for hosts"@,
        secret_error_text(SecretError::Empty) == "name, env var, and hosts must all be non-empty"@,
{
}

} // verus!
