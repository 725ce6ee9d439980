//! Planning a run: from flags and a project's configuration to what is booted.

use crate::config::{ProxyConfig, SecretConfig};
use crate::flags::{
    all_trimmed, is_mount_spec, is_port_mapping, law_mount_specs_mean_what_they_say,
    law_mounts_are_refused_for_a_reason, law_mounts_have_two_paths, law_mounts_stay_inside,
    law_secret_flags_mean_what_they_say, mount_error_text, mount_host, mount_host_text,
    mount_spec_ok, mounts_checked, parse_mount_spec, parse_port_mapping, parse_secret_flag,
    port_error_text, port_of, secret_error_text, secret_of, validate_mounts_with_cwd, MountError,
    PortError, SecretError,
};
use crate::guest::PortMapping;
use crate::kulfi::{
    expose_error_text, expose_of, exposes_checked, exposes_error_text, is_expose, parse_expose,
    validate_exposes, ExposeError, ExposesError, KulfiExpose,
};
use crate::machine::MountConfig;
use crate::paths::{is_root, is_within};
use crate::string_map::{
    key_index, lemma_key_index, lemma_key_index_is, lemma_last_entry_wins, value_of, with_entries,
    with_entry, StringMap,
};
use crate::text::{cat3, copied_strings, cut_all, decimal, decimal_text, texts};
use vstd::prelude::*;

verus! {

/// A flag that exposes a host port to the guest, and what it was read as.
#[derive(Debug)]
pub struct ExposeHost {
    pub flag: String,
    pub mapping: Option<PortMapping>,
}

/// The flags of a run.
#[derive(Debug)]
pub struct VmArgs {
    /// Number of CPU cores
    pub cpus: Option<usize>,
    /// Memory in MB
    pub memory: Option<u64>,
    /// Disk size in MB (default: 4096)
    pub disk_size: Option<u64>,
    /// Path to kernel
    pub kernel: Option<String>,
    /// Path to rootfs image
    pub rootfs: Option<String>,
    /// Path to initramfs (for loading VirtIO modules)
    pub initrd: Option<String>,
    /// Allow network access
    pub allow_net: bool,
    /// Allow mounts that write to the host
    pub allow_host_writes: bool,
    /// Forward a host port to a guest port (HOST:GUEST, e.g. 8080:80)
    pub port: Vec<String>,
    /// Mount a host directory into the VM (HOST:GUEST[:ro|rw])
    pub mount: Vec<String>,
    /// Inject a secret via proxy (NAME=ENV_VAR@host1,host2)
    pub secret: Vec<String>,
    /// Restrict network to specific hosts (repeatable)
    pub allow_host: Vec<String>,
    /// Let the guest reach a port of the host
    pub expose_host: Vec<ExposeHost>,
    /// Reach a forwarded port through a tunnel (HOST_PORT:http|tcp[:BRIDGE_PORT])
    pub kulfi: Vec<String>,
    /// The domain under which bridges serve tunnels
    pub kulfi_bridge_domain: String,
    /// Show verbose output (kernel boot, init messages)
    pub verbose: bool,
}

/// A project's configuration, beside what the proxy takes from it.
#[derive(Debug)]
pub struct ShuruConfig {
    pub cpus: Option<usize>,
    pub memory: Option<u64>,
    pub disk_size: Option<u64>,
    pub allow_net: Option<bool>,
    pub allow_host_writes: Option<bool>,
    pub ports: Option<Vec<String>>,
    pub mounts: Option<Vec<String>>,
    pub command: Option<Vec<String>>,
}

/// The current working directory.
#[derive(Debug)]
pub enum Cwd {
    Unknown,
    Unresolved,
    Path { path: String },
}

/// What the plan has to know of the host.
#[derive(Debug)]
pub struct HostFacts {
    /// The environment.
    pub env: StringMap<String>,
    /// The resolved form of paths that there is something at.
    pub canonical: StringMap<String>,
    pub cwd: Cwd,
}

/// Why a run cannot be planned.
#[derive(Debug)]
pub enum PrepareError {
    Secret { flag: String, secret_error: SecretError },
    ExposeHost { flag: String },
    Port { flag: String, port_error: PortError },
    Kulfi { flag: String, expose_error: ExposeError },
    Exposes { error: ExposesError },
    Mount { flag: String, mount_error: MountError },
    Mounts { mount_error: MountError },
    KernelMissing { path: String },
    RootfsMissing { path: String },
    CheckpointName { message: String },
    CheckpointMissing { name: String },
    DiskTooSmall { requested: u64, image: u64 },
}

/// The message of an error.
pub open spec fn prepare_error_text(e: PrepareError) -> Seq<char> {
    match e {
        PrepareError::Secret { flag, .. } => "invalid --secret: '"@ + flag@
            + "' (expected NAME=ENV@host1,host2)"@,
        PrepareError::ExposeHost { flag } => "invalid --expose-host: '"@ + flag@ + "'"@,
        PrepareError::Port { flag, .. } => "invalid port mapping: '"@ + flag@ + "'"@,
        PrepareError::Kulfi { flag, .. } => "invalid --kulfi mapping: '"@ + flag@ + "'"@,
        PrepareError::Exposes { error } => exposes_error_text(error),
        PrepareError::Mount { flag, .. } => "invalid mount spec: '"@ + flag@ + "'"@,
        PrepareError::Mounts { mount_error } => mount_error_text(mount_error),
        PrepareError::KernelMissing { path } => "Kernel not found at "@ + path@
            + ". Run `shuru init` to download."@,
        PrepareError::RootfsMissing { path } => "Rootfs not found at "@ + path@
            + ". Run `shuru init` to download."@,
        PrepareError::CheckpointName { message } => message@,
        PrepareError::CheckpointMissing { name } => "Checkpoint '"@ + name@ + "' not found"@,
        PrepareError::DiskTooSmall { requested, image } => "--disk-size "@ + decimal_text(
            requested as nat,
        ) + "MB is smaller than the base image ("@ + decimal_text((image / 0x10_0000) as nat)
            + "MB)"@,
    }
}

/// The message of what caused an error.
pub open spec fn prepare_cause_text(e: PrepareError) -> Option<Seq<char>> {
    match e {
        PrepareError::Secret { secret_error, .. } => Some(secret_error_text(secret_error)),
        PrepareError::Port { port_error, .. } => Some(port_error_text(port_error)),
        PrepareError::Kulfi { expose_error, .. } => Some(expose_error_text(expose_error)),
        PrepareError::Mount { mount_error, .. } => Some(mount_error_text(mount_error)),
        _ => None,
    }
}

impl PrepareError {
    /// The message of this error.
    pub fn to_string(&self) -> (r: String)
        ensures
            r@ == prepare_error_text(*self),
    {
        match self {
            PrepareError::Secret { flag, .. } => cat3(
                "invalid --secret: '",
                flag.as_str(),
                "' (expected NAME=ENV@host1,host2)",
            ),
            PrepareError::ExposeHost { flag } => cat3(
                "invalid --expose-host: '",
                flag.as_str(),
                "'",
            ),
            PrepareError::Port { flag, .. } => cat3("invalid port mapping: '", flag.as_str(), "'"),
            PrepareError::Kulfi { flag, .. } => cat3(
                "invalid --kulfi mapping: '",
                flag.as_str(),
                "'",
            ),
            PrepareError::Exposes { error } => error.to_string(),
            PrepareError::Mount { flag, .. } => cat3("invalid mount spec: '", flag.as_str(), "'"),
            PrepareError::Mounts { mount_error } => mount_error.to_string(),
            PrepareError::KernelMissing { path } => cat3(
                "Kernel not found at ",
                path.as_str(),
                ". Run `shuru init` to download.",
            ),
            PrepareError::RootfsMissing { path } => cat3(
                "Rootfs not found at ",
                path.as_str(),
                ". Run `shuru init` to download.",
            ),
            PrepareError::CheckpointName { message } => message.clone(),
            PrepareError::CheckpointMissing { name } => cat3(
                "Checkpoint '",
                name.as_str(),
                "' not found",
            ),
            PrepareError::DiskTooSmall { requested, image } => {
                let mut r = cat3(
                    "--disk-size ",
                    decimal(*requested).as_str(),
                    "MB is smaller than the base image (",
                );
                r.append(decimal(*image / 0x10_0000).as_str());
                r.append("MB)");
                r
            },
        }
    }

    /// The message of what caused this error.
    pub fn cause(&self) -> (r: Option<String>)
        ensures
            match r {
                Some(text) => prepare_cause_text(*self) == Some(text@),
                None => prepare_cause_text(*self) is None,
            },
    {
        match self {
            PrepareError::Secret { secret_error, .. } => Some(secret_error.to_string()),
            PrepareError::Port { port_error, .. } => Some(port_error.to_string()),
            PrepareError::Kulfi { expose_error, .. } => Some(expose_error.to_string()),
            PrepareError::Mount { mount_error, .. } => Some(mount_error.to_string()),
            _ => None,
        }
    }
}

/// A flag before the configuration, and the configuration before the default.
pub open spec fn choice<T>(flag: Option<T>, config: Option<T>, default: T) -> T {
    match (flag, config) {
        (Some(v), _) => v,
        (None, Some(v)) => v,
        (None, None) => default,
    }
}

fn chosen<T>(flag: Option<T>, config: Option<T>, default: T) -> (r: T)
    ensures
        r == choice(flag, config, default),
{
    match flag {
        Some(v) => v,
        None => match config {
            Some(v) => v,
            None => default,
        },
    }
}

/// The strings of an optional list.
pub open spec fn listed(v: Option<Vec<String>>) -> Seq<String> {
    match v {
        Some(l) => l@,
        None => Seq::empty(),
    }
}

fn merged(flags: &Vec<String>, config: &Option<Vec<String>>) -> (r: Vec<String>)
    ensures
        r@ == flags@ + listed(*config),
{
    let mut r = copied_strings(flags);
    if let Some(more) = config {
        let mut more = copied_strings(more);
        r.append(&mut more);
    }
    assert(r@ =~= flags@ + listed(*config));
    r
}

/// The command to run: the flags' before the configuration's before a shell.
pub fn resolve_command(flags: Vec<String>, config: Option<Vec<String>>) -> (r: Vec<String>)
    ensures
        if flags@.len() > 0 {
            r@ == flags@
        } else {
            match config {
                Some(c) => r@ == c@,
                None => texts(r@) == seq!["/bin/sh"@],
            }
        },
{
    if flags.len() > 0 {
        return flags;
    }
    match config {
        Some(c) => c,
        None => {
            let mut r: Vec<String> = Vec::new();
            r.push("/bin/sh".to_owned());
            assert(texts(r@) =~= seq!["/bin/sh"@]);
            r
        },
    }
}

/// Whether a run has access to the network.
pub open spec fn net_allowed(vm: VmArgs, cfg: ShuruConfig) -> bool {
    vm.allow_net || cfg.allow_net == Some(true)
}

/// Whether mounts of a run may write to the host.
pub open spec fn host_writes_allowed(vm: VmArgs, cfg: ShuruConfig) -> bool {
    vm.allow_host_writes || cfg.allow_host_writes == Some(true)
}

/// The port forwards that flags describe, if all of them describe one.
pub open spec fn ports_of(flags: Seq<String>) -> Option<Seq<PortMapping>> {
    if forall|i: int| 0 <= i < flags.len() ==> port_of((#[trigger] flags[i])@) is Some {
        Some(Seq::new(flags.len(), |i: int| port_of(flags[i]@)->0))
    } else {
        None
    }
}

/// Whether that is the error of the first flag that describes no port forward.
pub open spec fn is_port_fault(flags: Seq<String>, e: PrepareError) -> bool {
    exists|k: int|
        {
            &&& 0 <= k < flags.len()
            &&& e matches PrepareError::Port { flag, port_error } && flag == #[trigger] flags[k]
                && is_port_mapping(flag@, Err(port_error))
            &&& forall|i: int| 0 <= i < k ==> port_of((#[trigger] flags[i])@) is Some
        }
}

fn plan_ports(flags: &Vec<String>) -> (r: Result<Vec<PortMapping>, PrepareError>)
    ensures
        match r {
            Ok(v) => ports_of(flags@) == Some(v@),
            Err(e) => ports_of(flags@) is None && is_port_fault(flags@, e),
        },
{
    let mut v: Vec<PortMapping> = Vec::new();
    let mut i: usize = 0;
    while i < flags.len()
        invariant
            i <= flags@.len(),
            v@.len() == i,
            forall|j: int| 0 <= j < i ==> port_of((#[trigger] flags@[j])@) == Some(v@[j]),
        decreases flags@.len() - i,
    {
        match parse_port_mapping(flags[i].as_str()) {
            Ok(m) => v.push(m),
            Err(port_error) => {
                let e = PrepareError::Port { flag: flags[i].clone(), port_error };
                assert(port_of(flags@[i as int]@) is None);
                return Err(e);
            },
        }
        i += 1;
    }
    assert(v@ =~= Seq::new(flags@.len(), |j: int| port_of(flags@[j]@)->0));
    Ok(v)
}

/// The tunnels that flags describe, if all of them describe one.
pub open spec fn exposes_of(flags: Seq<String>) -> Option<Seq<KulfiExpose>> {
    if forall|i: int| 0 <= i < flags.len() ==> expose_of((#[trigger] flags[i])@) is Some {
        Some(Seq::new(flags.len(), |i: int| expose_of(flags[i]@)->0))
    } else {
        None
    }
}

/// Whether that is the error of the first flag that describes no tunnel.
pub open spec fn is_expose_fault(flags: Seq<String>, e: PrepareError) -> bool {
    exists|k: int|
        {
            &&& 0 <= k < flags.len()
            &&& e matches PrepareError::Kulfi { flag, expose_error } && flag == #[trigger] flags[k]
                && is_expose(flag@, Err(expose_error))
            &&& forall|i: int| 0 <= i < k ==> expose_of((#[trigger] flags[i])@) is Some
        }
}

fn plan_exposes(flags: &Vec<String>) -> (r: Result<Vec<KulfiExpose>, PrepareError>)
    ensures
        match r {
            Ok(v) => exposes_of(flags@) == Some(v@),
            Err(e) => exposes_of(flags@) is None && is_expose_fault(flags@, e),
        },
{
    let mut v: Vec<KulfiExpose> = Vec::new();
    let mut i: usize = 0;
    while i < flags.len()
        invariant
            i <= flags@.len(),
            v@.len() == i,
            forall|j: int| 0 <= j < i ==> expose_of((#[trigger] flags@[j])@) == Some(v@[j]),
        decreases flags@.len() - i,
    {
        match parse_expose(flags[i].as_str()) {
            Ok(e) => v.push(e),
            Err(expose_error) => {
                let e = PrepareError::Kulfi { flag: flags[i].clone(), expose_error };
                assert(expose_of(flags@[i as int]@) is None);
                return Err(e);
            },
        }
        i += 1;
    }
    assert(v@ =~= Seq::new(flags@.len(), |j: int| expose_of(flags@[j]@)->0));
    Ok(v)
}

/// The resolved path of a mount's host part, if there is something at it.
pub open spec fn resolved(canonical: Seq<(Seq<char>, String)>, s: Seq<char>) -> Option<Seq<char>> {
    match mount_host_text(s) {
        Some(host) => match value_of(canonical, host) {
            Some(path) => Some(path@),
            None => None,
        },
        None => None,
    }
}

/// Whether those are the mounts that the specifications describe.
pub open spec fn are_mounts(
    flags: Seq<String>,
    canonical: Seq<(Seq<char>, String)>,
    mounts: Seq<MountConfig>,
) -> bool {
    &&& mounts.len() == flags.len()
    &&& forall|i: int|
        0 <= i < flags.len() ==> is_mount_spec(
            (#[trigger] flags[i])@,
            resolved(canonical, flags[i]@),
            Ok(mounts[i]),
        )
}

/// Whether every mount specification is right.
pub open spec fn mounts_ok(flags: Seq<String>, canonical: Seq<(Seq<char>, String)>) -> bool {
    forall|i: int|
        0 <= i < flags.len() ==> mount_spec_ok(
            (#[trigger] flags[i])@,
            resolved(canonical, flags[i]@),
        )
}

/// Whether that is the error of the first mount specification that is wrong.
pub open spec fn is_mount_spec_fault(
    flags: Seq<String>,
    canonical: Seq<(Seq<char>, String)>,
    e: PrepareError,
) -> bool {
    exists|k: int|
        {
            &&& 0 <= k < flags.len()
            &&& e matches PrepareError::Mount { flag, mount_error } && flag == #[trigger] flags[k]
                && is_mount_spec(flag@, resolved(canonical, flag@), Err(mount_error))
            &&& forall|i: int|
                0 <= i < k ==> mount_spec_ok(
                    (#[trigger] flags[i])@,
                    resolved(canonical, flags[i]@),
                )
        }
}

fn plan_mounts(flags: &Vec<String>, canonical: &StringMap<String>) -> (r: Result<
    Vec<MountConfig>,
    PrepareError,
>)
    ensures
        match r {
            Ok(v) => mounts_ok(flags@, canonical@) && are_mounts(flags@, canonical@, v@),
            Err(e) => !mounts_ok(flags@, canonical@) && is_mount_spec_fault(
                flags@,
                canonical@,
                e,
            ),
        },
{
    let mut v: Vec<MountConfig> = Vec::new();
    let mut i: usize = 0;
    while i < flags.len()
        invariant
            i <= flags@.len(),
            v@.len() == i,
            forall|j: int|
                0 <= j < i ==> mount_spec_ok(
                    (#[trigger] flags@[j])@,
                    resolved(canonical@, flags@[j]@),
                ) && is_mount_spec(flags@[j]@, resolved(canonical@, flags@[j]@), Ok(v@[j])),
        decreases flags@.len() - i,
    {
        let host = match mount_host(flags[i].as_str()) {
            Some(h) => canonical.get(h.as_str()),
            None => None,
        };
        let path = match host {
            Some(p) => Some(p.as_str()),
            None => None,
        };
        match parse_mount_spec(flags[i].as_str(), path) {
            Ok(m) => v.push(m),
            Err(mount_error) => {
                let e = PrepareError::Mount { flag: flags[i].clone(), mount_error };
                assert(!mount_spec_ok(flags@[i as int]@, resolved(canonical@, flags@[i as int]@)));
                return Err(e);
            },
        }
        i += 1;
    }
    Ok(v)
}

/// Whether checking the mounts of a run against the working directory gives that
/// result. Where there are none, the directory does not matter.
pub open spec fn cwd_checked(
    mounts: Seq<MountConfig>,
    allow_host_writes: bool,
    cwd: Cwd,
    r: Result<(), MountError>,
) -> bool {
    if mounts.len() == 0 {
        r is Ok
    } else {
        match cwd {
            Cwd::Unknown => r == Err::<(), _>(MountError::NoCwd),
            Cwd::Unresolved => r == Err::<(), _>(MountError::UnresolvedCwd),
            Cwd::Path { path } => mounts_checked(mounts, allow_host_writes, path@, r),
        }
    }
}

/// Checks the mounts of a run against the working directory.
pub fn validate_mounts(mounts: &Vec<MountConfig>, allow_host_writes: bool, cwd: &Cwd) -> (r: Result<
    (),
    MountError,
>)
    ensures
        cwd_checked(mounts@, allow_host_writes, *cwd, r),
{
    if mounts.len() == 0 {
        return Ok(());
    }
    match cwd {
        Cwd::Unknown => Err(MountError::NoCwd),
        Cwd::Unresolved => Err(MountError::UnresolvedCwd),
        Cwd::Path { path } => validate_mounts_with_cwd(mounts, allow_host_writes, path.as_str()),
    }
}

/// The value of a host variable; nothing where it is not set.
pub open spec fn env_text(env: Seq<(Seq<char>, String)>, name: Seq<char>) -> Seq<char> {
    match value_of(env, name) {
        Some(v) => v@,
        None => Seq::empty(),
    }
}

/// What a secret holds: its value and its hosts.
pub open spec fn secret_config_view(s: SecretConfig) -> (Seq<char>, Seq<Seq<char>>) {
    (s.value@, texts(s.hosts@))
}

/// What secrets hold.
pub open spec fn secret_views(s: Seq<(Seq<char>, SecretConfig)>) -> Seq<
    (Seq<char>, (Seq<char>, Seq<Seq<char>>)),
> {
    Seq::new(s.len(), |i: int| (s[i].0, secret_config_view(s[i].1)))
}

/// Whether every flag describes a secret.
pub open spec fn secrets_ok(flags: Seq<String>) -> bool {
    forall|i: int| 0 <= i < flags.len() ==> secret_of((#[trigger] flags[i])@) is Ok
}

/// The secrets that flags describe, with the values of the host variables they name.
pub open spec fn flagged_secrets(flags: Seq<String>, env: Seq<(Seq<char>, String)>) -> Seq<
    (Seq<char>, (Seq<char>, Seq<Seq<char>>)),
> {
    Seq::new(
        flags.len(),
        |i: int|
            {
                let (name, from, hosts) = secret_of(flags[i]@)->Ok_0;
                (name, (env_text(env, from), hosts))
            },
    )
}

/// Whether that is the error of the first flag that describes no secret.
pub open spec fn is_secret_fault(flags: Seq<String>, e: PrepareError) -> bool {
    exists|k: int|
        {
            &&& 0 <= k < flags.len()
            &&& e matches PrepareError::Secret { flag, secret_error } && flag
                == #[trigger] flags[k] && secret_of(flag@) == Err::<
                (Seq<char>, Seq<char>, Seq<Seq<char>>),
                _,
            >(secret_error)
            &&& forall|i: int| 0 <= i < k ==> secret_of((#[trigger] flags[i])@) is Ok
        }
}

/// Whether every flag exposes a host port.
pub open spec fn exposed_ok(flags: Seq<ExposeHost>) -> bool {
    forall|i: int| 0 <= i < flags.len() ==> (#[trigger] flags[i]).mapping is Some
}

/// The host ports that flags expose.
pub open spec fn exposed_ports(flags: Seq<ExposeHost>) -> Seq<PortMapping> {
    Seq::new(flags.len(), |i: int| flags[i].mapping->0)
}

/// Whether that is the error of the first flag that exposes no host port.
pub open spec fn is_exposed_fault(flags: Seq<ExposeHost>, e: PrepareError) -> bool {
    exists|k: int|
        {
            &&& 0 <= k < flags.len()
            &&& e matches PrepareError::ExposeHost { flag } && flag == (#[trigger] flags[k]).flag
                && flags[k].mapping is None
            &&& forall|i: int| 0 <= i < k ==> (#[trigger] flags[i]).mapping is Some
        }
}

/// Whether the proxy's configuration is the project's with the flags merged in.
pub open spec fn is_merged_proxy(
    vm: VmArgs,
    proxy: ProxyConfig,
    env: Seq<(Seq<char>, String)>,
    p: ProxyConfig,
) -> bool {
    &&& secret_views(p.secrets@) == with_entries(
        secret_views(proxy.secrets@),
        flagged_secrets(vm.secret@, env),
    )
    &&& p.network.allow@ == proxy.network.allow@ + vm.allow_host@
    &&& p.expose_host@ == proxy.expose_host@ + exposed_ports(vm.expose_host@)
}

proof fn lemma_view_of_entry(s: Seq<(Seq<char>, SecretConfig)>, key: Seq<char>, v: SecretConfig)
    ensures
        secret_views(with_entry(s, key, v)) == with_entry(
            secret_views(s),
            key,
            secret_config_view(v),
        ),
{
    lemma_key_index(s, key);
    let k = key_index(s, key) as int;
    let views = secret_views(s);
    assert forall|i: int| 0 <= i < k implies (#[trigger] views[i]).0 != key by {
        assert(s[i].0 != key);
    }
    lemma_key_index_is(views, key, k);
    assert(secret_views(with_entry(s, key, v)) =~= with_entry(views, key, secret_config_view(v)));
}

fn merge_secrets(proxy: &mut ProxyConfig, flags: &Vec<String>, env: &StringMap<String>) -> (r:
    Result<(), PrepareError>)
    ensures
        final(proxy).network == old(proxy).network,
        final(proxy).expose_host == old(proxy).expose_host,
        match r {
            Ok(_) => secrets_ok(flags@) && secret_views(final(proxy).secrets@) == with_entries(
                secret_views(old(proxy).secrets@),
                flagged_secrets(flags@, env@),
            ),
            Err(e) => !secrets_ok(flags@) && is_secret_fault(flags@, e),
        },
{
    let ghost first = secret_views(proxy.secrets@);
    let ghost all = flagged_secrets(flags@, env@);
    let mut i: usize = 0;
    assert(all.take(0) =~= Seq::empty());
    while i < flags.len()
        invariant
            i <= flags@.len(),
            all == flagged_secrets(flags@, env@),
            forall|j: int| 0 <= j < i ==> secret_of((#[trigger] flags@[j])@) is Ok,
            secret_views(proxy.secrets@) == with_entries(first, all.take(i as int)),
            proxy.network == old(proxy).network,
            proxy.expose_host == old(proxy).expose_host,
        decreases flags@.len() - i,
    {
        match parse_secret_flag(flags[i].as_str()) {
            Ok((name, from, hosts)) => {
                let value = match env.get(from.as_str()) {
                    Some(v) => v.clone(),
                    None => String::new(),
                };
                let secret = SecretConfig { value, hosts };
                proof {
                    lemma_view_of_entry(proxy.secrets@, name@, secret);
                    assert(all.take(i + 1).drop_last() =~= all.take(i as int));
                    assert(all.take(i + 1).last() == all[i as int]);
                    assert(secret_config_view(secret).0 =~= env_text(env@, from@));
                }
                proxy.secrets.insert(name, secret);
            },
            Err(secret_error) => {
                assert(secret_of(flags@[i as int]@) is Err);
                return Err(PrepareError::Secret { flag: flags[i].clone(), secret_error });
            },
        }
        i += 1;
    }
    assert(all.take(all.len() as int) =~= all);
    Ok(())
}

fn merge_exposed(proxy: &mut ProxyConfig, flags: &Vec<ExposeHost>) -> (r: Result<
    (),
    PrepareError,
>)
    ensures
        final(proxy).network == old(proxy).network,
        final(proxy).secrets == old(proxy).secrets,
        match r {
            Ok(_) => exposed_ok(flags@) && final(proxy).expose_host@ == old(proxy).expose_host@
                + exposed_ports(flags@),
            Err(e) => !exposed_ok(flags@) && is_exposed_fault(flags@, e),
        },
{
    let ghost first = proxy.expose_host@;
    let mut i: usize = 0;
    assert(first + exposed_ports(flags@.take(0)) =~= first);
    while i < flags.len()
        invariant
            i <= flags@.len(),
            forall|j: int| 0 <= j < i ==> (#[trigger] flags@[j]).mapping is Some,
            proxy.expose_host@ == first + exposed_ports(flags@.take(i as int)),
            proxy.network == old(proxy).network,
            proxy.secrets == old(proxy).secrets,
        decreases flags@.len() - i,
    {
        match flags[i].mapping {
            Some(m) => {
                proxy.expose_host.push(m);
                assert(proxy.expose_host@ =~= first + exposed_ports(flags@.take(i + 1)));
            },
            None => {
                return Err(PrepareError::ExposeHost { flag: flags[i].flag.clone() });
            },
        }
        i += 1;
    }
    assert(flags@.take(flags@.len() as int) =~= flags@);
    Ok(())
}

/// What a run is to be, before anything of it is on disk.
#[derive(Debug)]
pub struct VmPlan {
    pub cpus: usize,
    pub memory: u64,
    pub disk_size: u64,
    pub verbose: bool,
    /// The proxy, which there is only with access to the network.
    pub proxy: Option<ProxyConfig>,
    pub forwards: Vec<PortMapping>,
    pub exposes: Vec<KulfiExpose>,
    pub bridge_domain: String,
    pub mounts: Vec<MountConfig>,
}

/// Whether that is the plan of the flags and the project's configuration.
pub open spec fn is_plan_of(
    vm: VmArgs,
    cfg: ShuruConfig,
    proxy: ProxyConfig,
    host: HostFacts,
    plan: VmPlan,
) -> bool {
    &&& plan.cpus == choice(vm.cpus, cfg.cpus, 2)
    &&& plan.memory == choice(vm.memory, cfg.memory, 2048)
    &&& plan.disk_size == choice(vm.disk_size, cfg.disk_size, 4096)
    &&& plan.verbose == vm.verbose
    &&& match plan.proxy {
        Some(p) => net_allowed(vm, cfg) && is_merged_proxy(vm, proxy, host.env@, p),
        None => !net_allowed(vm, cfg),
    }
    &&& ports_of(vm.port@ + listed(cfg.ports)) == Some(plan.forwards@)
    &&& exposes_of(vm.kulfi@) == Some(plan.exposes@)
    &&& exposes_checked(plan.exposes@, plan.forwards@, Ok(()))
    &&& plan.bridge_domain == vm.kulfi_bridge_domain
    &&& are_mounts(vm.mount@ + listed(cfg.mounts), host.canonical@, plan.mounts@)
    &&& cwd_checked(plan.mounts@, host_writes_allowed(vm, cfg), host.cwd, Ok(()))
}

/// Whether planning gives that result. The first thing that is wrong decides.
pub open spec fn is_planned(
    vm: VmArgs,
    cfg: ShuruConfig,
    proxy: ProxyConfig,
    host: HostFacts,
    r: Result<VmPlan, PrepareError>,
) -> bool {
    let net = net_allowed(vm, cfg);
    let ports = vm.port@ + listed(cfg.ports);
    let specs = vm.mount@ + listed(cfg.mounts);
    if net && !secrets_ok(vm.secret@) {
        r matches Err(e) && is_secret_fault(vm.secret@, e)
    } else if net && !exposed_ok(vm.expose_host@) {
        r matches Err(e) && is_exposed_fault(vm.expose_host@, e)
    } else if ports_of(ports) is None {
        r matches Err(e) && is_port_fault(ports, e)
    } else if exposes_of(vm.kulfi@) is None {
        r matches Err(e) && is_expose_fault(vm.kulfi@, e)
    } else if !exposes_checked(exposes_of(vm.kulfi@)->0, ports_of(ports)->0, Ok(())) {
        r matches Err(PrepareError::Exposes { error }) && exposes_checked(
            exposes_of(vm.kulfi@)->0,
            ports_of(ports)->0,
            Err(error),
        )
    } else if !mounts_ok(specs, host.canonical@) {
        r matches Err(e) && is_mount_spec_fault(specs, host.canonical@, e)
    } else {
        match r {
            Ok(plan) => is_plan_of(vm, cfg, proxy, host, plan),
            Err(PrepareError::Mounts { mount_error }) => exists|mounts: Seq<MountConfig>| #[trigger]
                are_mounts(specs, host.canonical@, mounts) && cwd_checked(
                    mounts,
                    host_writes_allowed(vm, cfg),
                    host.cwd,
                    Err(mount_error),
                ),
            Err(_) => false,
        }
    }
}

/// Plans a run from its flags, the project's configuration and what the proxy takes
/// from it. Flags win over the configuration; ports, mounts, secrets and hosts of both
/// are merged.
pub fn plan_vm(vm: &VmArgs, cfg: &ShuruConfig, proxy: ProxyConfig, host: &HostFacts) -> (r: Result<
    VmPlan,
    PrepareError,
>)
    ensures
        is_planned(*vm, *cfg, proxy, *host, r),
{
    let cpus = chosen(vm.cpus, cfg.cpus, 2);
    let memory = chosen(vm.memory, cfg.memory, 2048);
    let disk_size = chosen(vm.disk_size, cfg.disk_size, 4096);
    let allow_net = vm.allow_net || chosen(cfg.allow_net, None, false);
    let allow_host_writes = vm.allow_host_writes || chosen(cfg.allow_host_writes, None, false);
    let merged_proxy = if allow_net {
        let mut p = proxy;
        if let Err(e) = merge_secrets(&mut p, &vm.secret, &host.env) {
            return Err(e);
        }
        let mut hosts = copied_strings(&vm.allow_host);
        p.network.allow.append(&mut hosts);
        if let Err(e) = merge_exposed(&mut p, &vm.expose_host) {
            return Err(e);
        }
        Some(p)
    } else {
        None
    };
    let forwards = match plan_ports(&merged(&vm.port, &cfg.ports)) {
        Ok(v) => v,
        Err(e) => return Err(e),
    };
    let exposes = match plan_exposes(&vm.kulfi) {
        Ok(v) => v,
        Err(e) => return Err(e),
    };
    let checked = validate_exposes(&exposes, &forwards);
    proof {
        lemma_exposes_decided(exposes@, forwards@, checked);
    }
    if let Err(error) = checked {
        return Err(PrepareError::Exposes { error });
    }
    let mounts = match plan_mounts(&merged(&vm.mount, &cfg.mounts), &host.canonical) {
        Ok(v) => v,
        Err(e) => return Err(e),
    };
    if let Err(mount_error) = validate_mounts(&mounts, allow_host_writes, &host.cwd) {
        return Err(PrepareError::Mounts { mount_error });
    }
    Ok(
        VmPlan {
            cpus,
            memory,
            disk_size,
            verbose: vm.verbose,
            proxy: merged_proxy,
            forwards,
            exposes,
            bridge_domain: vm.kulfi_bridge_domain.clone(),
            mounts,
        },
    )
}

proof fn lemma_exposes_decided(
    exposes: Seq<KulfiExpose>,
    forwards: Seq<PortMapping>,
    r: Result<(), ExposesError>,
)
    requires
        exposes_checked(exposes, forwards, r),
    ensures
        r is Ok <==> exposes_checked(exposes, forwards, Ok(())),
{
}

/// Without access to the network there is no proxy, and so no device for one.
pub proof fn law_no_net_no_proxy(
    vm: VmArgs,
    cfg: ShuruConfig,
    proxy: ProxyConfig,
    host: HostFacts,
    plan: VmPlan,
)
    requires
        is_planned(vm, cfg, proxy, host, Ok(plan)),
    ensures
        plan.proxy is Some <==> vm.allow_net || cfg.allow_net == Some(true),
{
}

/// A flag wins over the configuration, and the configuration over the default.
pub proof fn law_flags_win(
    vm: VmArgs,
    cfg: ShuruConfig,
    proxy: ProxyConfig,
    host: HostFacts,
    plan: VmPlan,
)
    requires
        is_planned(vm, cfg, proxy, host, Ok(plan)),
    ensures
        vm.cpus matches Some(n) ==> plan.cpus == n,
        vm.cpus is None ==> (cfg.cpus matches Some(n) ==> plan.cpus == n),
        vm.cpus is None && cfg.cpus is None ==> plan.cpus == 2,
        vm.memory matches Some(n) ==> plan.memory == n,
        vm.memory is None ==> (cfg.memory matches Some(n) ==> plan.memory == n),
        vm.memory is None && cfg.memory is None ==> plan.memory == 2048,
        vm.disk_size matches Some(n) ==> plan.disk_size == n,
        vm.disk_size is None ==> (cfg.disk_size matches Some(n) ==> plan.disk_size == n),
        vm.disk_size is None && cfg.disk_size is None ==> plan.disk_size == 4096,
{
}

/// The ports of the flags and of the configuration are merged, not replaced: each is
/// forwarded, the flags' first.
pub proof fn law_ports_are_merged(
    vm: VmArgs,
    cfg: ShuruConfig,
    proxy: ProxyConfig,
    host: HostFacts,
    plan: VmPlan,
)
    requires
        is_planned(vm, cfg, proxy, host, Ok(plan)),
    ensures
        plan.forwards@.len() == vm.port@.len() + listed(cfg.ports).len(),
        forall|i: int|
            0 <= i < vm.port@.len() ==> port_of((#[trigger] vm.port@[i])@) == Some(
                plan.forwards@[i],
            ),
        forall|i: int|
            0 <= i < listed(cfg.ports).len() ==> port_of((#[trigger] listed(cfg.ports)[i])@)
                == Some(plan.forwards@[vm.port@.len() + i]),
{
    let ports = vm.port@ + listed(cfg.ports);
    assert forall|i: int| 0 <= i < vm.port@.len() implies port_of((#[trigger] vm.port@[i])@)
        == Some(plan.forwards@[i]) by {
        assert(ports[i] == vm.port@[i]);
    }
    assert forall|i: int| 0 <= i < listed(cfg.ports).len() implies port_of(
        (#[trigger] listed(cfg.ports)[i])@,
    ) == Some(plan.forwards@[vm.port@.len() + i]) by {
        assert(ports[vm.port@.len() + i] == listed(cfg.ports)[i]);
    }
}

/// Without the permission to write to the host, every mount of a run is read-only; and
/// whatever is mounted lies within the working directory.
pub proof fn law_planned_mounts_stay_inside(
    vm: VmArgs,
    cfg: ShuruConfig,
    proxy: ProxyConfig,
    host: HostFacts,
    plan: VmPlan,
    i: int,
)
    requires
        is_planned(vm, cfg, proxy, host, Ok(plan)),
        0 <= i < plan.mounts@.len(),
    ensures
        !host_writes_allowed(vm, cfg) ==> plan.mounts@[i].read_only,
        host.cwd matches Cwd::Path { path } && is_within(plan.mounts@[i].host_path@, path@)
            && !is_root(plan.mounts@[i].host_path@),
{
    if let Cwd::Path { path } = host.cwd {
        law_mounts_stay_inside(plan.mounts@, host_writes_allowed(vm, cfg), path@, i);
    }
}

/// Either the flag or the configuration gives the permission to write to the host: with
/// one of them no mount is refused for want of it, and with neither every mount of a plan
/// is read-only.
pub proof fn law_host_writes_need_the_flag_or_the_configuration(
    vm: VmArgs,
    cfg: ShuruConfig,
    proxy: ProxyConfig,
    host: HostFacts,
    r: Result<VmPlan, PrepareError>,
)
    requires
        is_planned(vm, cfg, proxy, host, r),
    ensures
        vm.allow_host_writes || cfg.allow_host_writes == Some(true) ==> !(r matches Err(
            PrepareError::Mounts { mount_error: MountError::HostWrites { .. } },
        )),
        !vm.allow_host_writes && cfg.allow_host_writes != Some(true) ==> (r matches Ok(plan)
            ==> forall|i: int|
            0 <= i < plan.mounts@.len() ==> (#[trigger] plan.mounts@[i]).read_only),
{
    if let Ok(plan) = r {
        assert forall|i: int|
            0 <= i < plan.mounts@.len() && !vm.allow_host_writes && cfg.allow_host_writes != Some(
                true,
            ) implies (#[trigger] plan.mounts@[i]).read_only by {
            law_planned_mounts_stay_inside(vm, cfg, proxy, host, plan, i);
        }
    }
    if let Err(PrepareError::Mounts { mount_error }) = r {
        let specs = vm.mount@ + listed(cfg.mounts);
        let allowed = host_writes_allowed(vm, cfg);
        let mounts = choose|mounts: Seq<MountConfig>| #[trigger]
            are_mounts(specs, host.canonical@, mounts) && cwd_checked(
                mounts,
                allowed,
                host.cwd,
                Err(mount_error),
            );
        if let Cwd::Path { path } = host.cwd {
            if mounts.len() > 0 {
                law_mounts_are_refused_for_a_reason(mounts, allowed, path@, Err(mount_error));
            }
        }
    }
}

/// A plan has every mount of the flags and of the configuration, the flags' first. One
/// that is written `HOST:GUEST` or `HOST:GUEST:MODE` leads from what the host's path
/// resolves to, to the guest's path, and is read-only unless its mode is "rw".
pub proof fn law_mounts_are_merged(
    vm: VmArgs,
    cfg: ShuruConfig,
    proxy: ProxyConfig,
    host: HostFacts,
    plan: VmPlan,
    i: int,
    from: Seq<char>,
    guest: Seq<char>,
    mode: Option<Seq<char>>,
)
    requires
        is_planned(vm, cfg, proxy, host, Ok(plan)),
        0 <= i < vm.mount@.len() + listed(cfg.mounts).len(),
        !from.contains(':'),
        !guest.contains(':'),
        (if i < vm.mount@.len() {
            vm.mount@[i]@
        } else {
            listed(cfg.mounts)[i - vm.mount@.len()]@
        }) == from + seq![':'] + guest + (match mode {
            Some(m) => seq![':'] + m,
            None => Seq::empty(),
        }),
    ensures
        plan.mounts@.len() == vm.mount@.len() + listed(cfg.mounts).len(),
        plan.mounts@[i].guest_path@ == guest,
        plan.mounts@[i].read_only == (mode != Some("rw"@)),
        value_of(host.canonical@, from) matches Some(path) && plan.mounts@[i].host_path@ == path@,
{
    let specs = vm.mount@ + listed(cfg.mounts);
    let text = specs[i]@;
    let canonical = resolved(host.canonical@, text);
    assert(is_mount_spec(text, canonical, Ok(plan.mounts@[i])));
    law_mount_specs_mean_what_they_say(from, guest, mode, canonical, Ok(plan.mounts@[i]));
    let rest = guest + (match mode {
        Some(m) => seq![':'] + m,
        None => Seq::empty(),
    });
    assert(text =~= from + seq![':'] + rest);
    law_mounts_have_two_paths(from, rest, canonical, Ok(plan.mounts@[i]));
}

/// The tunnels of a plan are those of the flags, in order, each for a forwarded port; and
/// the plan is as verbose as the flags ask for, and serves under their domain.
pub proof fn law_tunnels_are_planned(
    vm: VmArgs,
    cfg: ShuruConfig,
    proxy: ProxyConfig,
    host: HostFacts,
    plan: VmPlan,
    i: int,
)
    requires
        is_planned(vm, cfg, proxy, host, Ok(plan)),
    ensures
        plan.verbose == vm.verbose,
        plan.bridge_domain@ == vm.kulfi_bridge_domain@,
        plan.exposes@.len() == vm.kulfi@.len(),
        0 <= i < vm.kulfi@.len() ==> expose_of(vm.kulfi@[i]@) == Some(plan.exposes@[i]) && exists|
            j: int,
        |
            0 <= j < plan.forwards@.len() && (#[trigger] plan.forwards@[j]).host_port
                == plan.exposes@[i].host_port,
{
    if 0 <= i < vm.kulfi@.len() {
        assert(expose_of(vm.kulfi@[i]@) is Some);
        assert(crate::kulfi::expose_fault(plan.exposes@, plan.forwards@, i) is None);
    }
}

/// The hosts that the guest may reach are those of the configuration and those of the
/// flags, and so are the host's ports that it may reach.
pub proof fn law_network_rules_are_merged(
    vm: VmArgs,
    cfg: ShuruConfig,
    proxy: ProxyConfig,
    host: HostFacts,
    plan: VmPlan,
    i: int,
)
    requires
        is_planned(vm, cfg, proxy, host, Ok(plan)),
    ensures
        plan.proxy matches Some(p) ==> {
            &&& p.network.allow@ == proxy.network.allow@ + vm.allow_host@
            &&& p.expose_host@.len() == proxy.expose_host@.len() + vm.expose_host@.len()
            &&& 0 <= i < proxy.expose_host@.len() ==> p.expose_host@[i] == proxy.expose_host@[i]
            &&& 0 <= i < vm.expose_host@.len() ==> vm.expose_host@[i].mapping == Some(
                p.expose_host@[proxy.expose_host@.len() + i],
            )
        },
{
    if 0 <= i < vm.expose_host@.len() && plan.proxy is Some {
        assert(vm.expose_host@[i].mapping is Some);
    }
}

proof fn lemma_secret_views(s: Seq<(Seq<char>, SecretConfig)>, key: Seq<char>)
    ensures
        match value_of(s, key) {
            Some(c) => value_of(secret_views(s), key) == Some(secret_config_view(c)),
            None => value_of(secret_views(s), key) is None,
        },
{
    lemma_key_index(s, key);
    let k = key_index(s, key) as int;
    let views = secret_views(s);
    assert forall|i: int| 0 <= i < k implies (#[trigger] views[i]).0 != key by {
        assert(s[i].0 != key);
    }
    lemma_key_index_is(views, key, k);
}

/// A secret of the flags, `NAME=VAR@HOSTS`, is a secret of the plan under that name: with
/// the value of the host's variable, or none where it is not set, and for those hosts. It
/// wins over one of the configuration and over an earlier flag of the same name.
pub proof fn law_secret_flags_are_merged(
    vm: VmArgs,
    cfg: ShuruConfig,
    proxy: ProxyConfig,
    host: HostFacts,
    plan: VmPlan,
    k: int,
    name: Seq<char>,
    from: Seq<char>,
    hosts: Seq<char>,
)
    requires
        is_planned(vm, cfg, proxy, host, Ok(plan)),
        vm.allow_net || cfg.allow_net == Some(true),
        0 <= k < vm.secret@.len(),
        vm.secret@[k]@ == name + seq!['='] + (from + seq!['@'] + hosts),
        !name.contains('='),
        !from.contains('@'),
        forall|j: int|
            k < j < vm.secret@.len() ==> (secret_of((#[trigger] vm.secret@[j])@) matches Ok(x)
                ==> x.0 != name),
    ensures
        plan.proxy matches Some(p) && (value_of(p.secrets@, name) matches Some(secret)
            && secret.value@ == (match value_of(host.env@, from) {
            Some(v) => v@,
            None => Seq::empty(),
        }) && texts(secret.hosts@) == all_trimmed(cut_all(hosts, ','))),
{
    law_secret_flags_mean_what_they_say(name, from, hosts);
    let p = plan.proxy->0;
    let t = flagged_secrets(vm.secret@, host.env@);
    assert(secrets_ok(vm.secret@));
    assert(secret_of(vm.secret@[k]@) is Ok);
    assert forall|j: int| k < j < t.len() implies (#[trigger] t[j]).0 != name by {
        assert(secret_of(vm.secret@[j]@) is Ok);
    }
    lemma_last_entry_wins(secret_views(proxy.secrets@), t, k, name);
    lemma_secret_views(p.secrets@, name);
}

/// A secret of the configuration that no flag names stays as it is, and a plan has no
/// secrets but those.
pub proof fn law_configured_secrets_stay(
    vm: VmArgs,
    cfg: ShuruConfig,
    proxy: ProxyConfig,
    host: HostFacts,
    plan: VmPlan,
    name: Seq<char>,
)
    requires
        is_planned(vm, cfg, proxy, host, Ok(plan)),
        forall|j: int|
            0 <= j < vm.secret@.len() ==> (secret_of((#[trigger] vm.secret@[j])@) matches Ok(x)
                ==> x.0 != name),
    ensures
        plan.proxy matches Some(p) ==> match (
            value_of(p.secrets@, name),
            value_of(proxy.secrets@, name),
        ) {
            (Some(a), Some(b)) => a.value@ == b.value@ && texts(a.hosts@) == texts(b.hosts@),
            (None, None) => true,
            _ => false,
        },
{
    if let Some(p) = plan.proxy {
        let t = flagged_secrets(vm.secret@, host.env@);
        assert(secrets_ok(vm.secret@));
        assert forall|j: int| -1 < j < t.len() implies (#[trigger] t[j]).0 != name by {
            assert(secret_of(vm.secret@[j]@) is Ok);
        }
        lemma_last_entry_wins(secret_views(proxy.secrets@), t, -1, name);
        lemma_secret_views(p.secrets@, name);
        lemma_secret_views(proxy.secrets@, name);
    }
}

/// Where every flag is right and every mount may be made, a run is planned. Without access
/// to the network the flags for it do not matter.
pub proof fn law_right_flags_are_planned(
    vm: VmArgs,
    cfg: ShuruConfig,
    proxy: ProxyConfig,
    host: HostFacts,
    cwd: String,
    r: Result<VmPlan, PrepareError>,
)
    requires
        is_planned(vm, cfg, proxy, host, r),
        vm.allow_net || cfg.allow_net == Some(true) ==> (forall|i: int|
            0 <= i < vm.secret@.len() ==> secret_of((#[trigger] vm.secret@[i])@) is Ok) && (forall|
            i: int,
        |
            0 <= i < vm.expose_host@.len() ==> (#[trigger] vm.expose_host@[i]).mapping is Some),
        forall|i: int| 0 <= i < vm.port@.len() ==> port_of((#[trigger] vm.port@[i])@) is Some,
        forall|i: int|
            0 <= i < listed(cfg.ports).len() ==> port_of((#[trigger] listed(cfg.ports)[i])@) is Some,
        vm.kulfi@.len() == 0,
        vm.mount@.len() + listed(cfg.mounts).len() > 0 ==> host.cwd == (Cwd::Path { path: cwd })
            && !is_root(cwd@) && (vm.allow_host_writes || cfg.allow_host_writes == Some(true)),
        forall|i: int|
            0 <= i < vm.mount@.len() + listed(cfg.mounts).len() ==> {
                let text = (#[trigger] (vm.mount@ + listed(cfg.mounts))[i])@;
                let path = resolved(host.canonical@, text);
                mount_spec_ok(text, path) && !is_root(path->0) && is_within(path->0, cwd@)
            },
    ensures
        r is Ok,
{
    let ports = vm.port@ + listed(cfg.ports);
    let specs = vm.mount@ + listed(cfg.mounts);
    assert forall|i: int| 0 <= i < ports.len() implies port_of((#[trigger] ports[i])@) is Some by {
        if i < vm.port@.len() {
            assert(ports[i] == vm.port@[i]);
        } else {
            assert(ports[i] == listed(cfg.ports)[i - vm.port@.len()]);
        }
    }
    assert(mounts_ok(specs, host.canonical@));
    assert(exposes_of(vm.kulfi@) is Some);
    assert(exposes_checked(exposes_of(vm.kulfi@)->0, ports_of(ports)->0, Ok(())));
    if let Err(e) = r {
        assert(e is Mounts);
        let mount_error = e->Mounts_mount_error;
        let allowed = host_writes_allowed(vm, cfg);
        let mounts = choose|mounts: Seq<MountConfig>| #[trigger]
            are_mounts(specs, host.canonical@, mounts) && cwd_checked(
                mounts,
                allowed,
                host.cwd,
                Err(mount_error),
            );
        law_mounts_are_refused_for_a_reason(mounts, allowed, cwd@, Err(mount_error));
        assert forall|i: int| 0 <= i < mounts.len() implies !is_root(
            (#[trigger] mounts[i]).host_path@,
        ) && is_within(mounts[i].host_path@, cwd@) && (mounts[i].read_only || allowed) by {
            let text = specs[i]@;
            assert(is_mount_spec(text, resolved(host.canonical@, text), Ok(mounts[i])));
        }
    }
}

/// A run with a wrong flag is not planned, and the error names a flag that is wrong.
pub proof fn law_wrong_flags_are_named(
    vm: VmArgs,
    cfg: ShuruConfig,
    proxy: ProxyConfig,
    host: HostFacts,
    r: Result<VmPlan, PrepareError>,
    i: int,
)
    requires
        is_planned(vm, cfg, proxy, host, r),
    ensures
        0 <= i < vm.port@.len() && port_of(vm.port@[i]@) is None ==> r is Err,
        0 <= i < listed(cfg.ports).len() && port_of(listed(cfg.ports)[i]@) is None ==> r is Err,
        0 <= i < vm.kulfi@.len() && expose_of(vm.kulfi@[i]@) is None ==> r is Err,
        0 <= i < vm.mount@.len() && !mount_spec_ok(
            vm.mount@[i]@,
            resolved(host.canonical@, vm.mount@[i]@),
        ) ==> r is Err,
        0 <= i < listed(cfg.mounts).len() && !mount_spec_ok(
            listed(cfg.mounts)[i]@,
            resolved(host.canonical@, listed(cfg.mounts)[i]@),
        ) ==> r is Err,
        0 <= i < vm.secret@.len() && secret_of(vm.secret@[i]@) is Err && (vm.allow_net
            || cfg.allow_net == Some(true)) ==> r is Err,
        match r {
            Err(PrepareError::Port { flag, port_error }) => port_of(flag@) is None
                && is_port_mapping(flag@, Err(port_error)) && (vm.port@.contains(flag) || listed(
                cfg.ports,
            ).contains(flag)),
            Err(PrepareError::Kulfi { flag, expose_error }) => expose_of(flag@) is None
                && is_expose(flag@, Err(expose_error)) && vm.kulfi@.contains(flag),
            Err(PrepareError::Secret { flag, secret_error }) => secret_of(flag@) == Err::<
                (Seq<char>, Seq<char>, Seq<Seq<char>>),
                _,
            >(secret_error) && vm.secret@.contains(flag) && (vm.allow_net || cfg.allow_net == Some(
                true,
            )),
            Err(PrepareError::Mount { flag, .. }) => !mount_spec_ok(
                flag@,
                resolved(host.canonical@, flag@),
            ) && (vm.mount@.contains(flag) || listed(cfg.mounts).contains(flag)),
            _ => true,
        },
{
    let ports = vm.port@ + listed(cfg.ports);
    let specs = vm.mount@ + listed(cfg.mounts);
    if 0 <= i < vm.port@.len() {
        assert(ports[i] == vm.port@[i]);
    }
    if 0 <= i < listed(cfg.ports).len() {
        assert(ports[vm.port@.len() + i] == listed(cfg.ports)[i]);
    }
    if 0 <= i < vm.mount@.len() {
        assert(specs[i] == vm.mount@[i]);
    }
    if 0 <= i < listed(cfg.mounts).len() {
        assert(specs[vm.mount@.len() + i] == listed(cfg.mounts)[i]);
    }
    if let Err(PrepareError::Port { flag, port_error }) = r {
        let k = choose|k: int|
            0 <= k < ports.len() && flag == #[trigger] ports[k] && is_port_mapping(
                flag@,
                Err(port_error),
            );
        assert(k < vm.port@.len() ==> vm.port@[k] == flag);
        assert(k >= vm.port@.len() ==> listed(cfg.ports)[k - vm.port@.len()] == flag);
    }
    if let Err(PrepareError::Kulfi { flag, expose_error }) = r {
        let k = choose|k: int|
            0 <= k < vm.kulfi@.len() && flag == #[trigger] vm.kulfi@[k] && is_expose(
                flag@,
                Err(expose_error),
            );
        assert(vm.kulfi@[k] == flag);
    }
    if let Err(PrepareError::Mount { flag, mount_error }) = r {
        let k = choose|k: int|
            0 <= k < specs.len() && flag == #[trigger] specs[k] && is_mount_spec(
                flag@,
                resolved(host.canonical@, flag@),
                Err(mount_error),
            );
        assert(k < vm.mount@.len() ==> vm.mount@[k] == flag);
        assert(k >= vm.mount@.len() ==> listed(cfg.mounts)[k - vm.mount@.len()] == flag);
    }
}

/// A list of the configuration is taken as it is, and none adds nothing.
pub proof fn law_lists_are_taken_whole(v: Option<Vec<String>>)
    ensures
        v matches Some(l) ==> listed(v) == l@,
        v is None ==> listed(v).len() == 0,
{
}

/// A message says which flag is wrong, or what is missing, and the cause says why.
pub proof fn law_messages_name_the_flag(
    flag: String,
    secret_error: SecretError,
    port_error: PortError,
    expose_error: ExposeError,
    mount_error: MountError,
    requested: u64,
    image: u64,
)
    ensures
        prepare_error_text(PrepareError::Secret { flag, secret_error }) == "invalid --secret: '"@
            + flag@ + "' (expected NAME=ENV@host1,host2)"@,
        prepare_error_text(PrepareError::ExposeHost { flag }) == "invalid --expose-host: '"@ + flag@
            + "'"@,
        prepare_error_text(PrepareError::Port { flag, port_error }) == "invalid port mapping: '"@
            + flag@ + "'"@,
        prepare_error_text(PrepareError::Kulfi { flag, expose_error })
            == "invalid --kulfi mapping: '"@ + flag@ + "'"@,
        prepare_error_text(PrepareError::Mount { flag, mount_error }) == "invalid mount spec: '"@
            + flag@ + "'"@,
        prepare_error_text(PrepareError::Mounts { mount_error }) == mount_error_text(mount_error),
        prepare_error_text(PrepareError::KernelMissing { path: flag }) == "Kernel not found at "@
            + flag@ + ". Run `shuru init` to download."@,
        prepare_error_text(PrepareError::RootfsMissing { path: flag }) == "Rootfs not found at "@
            + flag@ + ". Run `shuru init` to download."@,
        prepare_error_text(PrepareError::CheckpointName { message: flag }) == flag@,
        prepare_error_text(PrepareError::CheckpointMissing { name: flag }) == "Checkpoint '"@
            + flag@ + "' not found"@,
        prepare_error_text(PrepareError::DiskTooSmall { requested, image }) == "--disk-size "@
            + decimal_text(requested as nat) + "MB is smaller than the base image ("@
            + decimal_text((image / 1048576) as nat) + "MB)"@,
        prepare_cause_text(PrepareError::Secret { flag, secret_error }) == Some(
            secret_error_text(secret_error),
        ),
        prepare_cause_text(PrepareError::Port { flag, port_error }) == Some(
            port_error_text(port_error),
        ),
        prepare_cause_text(PrepareError::Kulfi { flag, expose_error }) == Some(
            expose_error_text(expose_error),
        ),
        prepare_cause_text(PrepareError::Mount { flag, mount_error }) == Some(
            mount_error_text(mount_error),
        ),
{
}

/// Mounts are checked against the working directory only where there are any, and then
/// it has to be known and resolved.
pub proof fn law_mounts_need_a_working_directory(
    vm: VmArgs,
    cfg: ShuruConfig,
    proxy: ProxyConfig,
    host: HostFacts,
    r: Result<VmPlan, PrepareError>,
)
    requires
        is_planned(vm, cfg, proxy, host, r),
    ensures
        vm.mount@.len() + listed(cfg.mounts).len() > 0 && !(host.cwd is Path) ==> r is Err,
        vm.mount@.len() + listed(cfg.mounts).len() == 0 ==> !(r matches Err(
            PrepareError::Mounts { .. },
        )) && !(r matches Err(PrepareError::Mount { .. })),
        r matches Err(PrepareError::Mounts { mount_error: MountError::NoCwd }) ==> host.cwd is Unknown,
        r matches Err(PrepareError::Mounts { mount_error: MountError::UnresolvedCwd })
            ==> host.cwd is Unresolved,
{
    let specs = vm.mount@ + listed(cfg.mounts);
    if let Err(PrepareError::Mounts { mount_error }) = r {
        let allowed = host_writes_allowed(vm, cfg);
        let mounts = choose|mounts: Seq<MountConfig>| #[trigger]
            are_mounts(specs, host.canonical@, mounts) && cwd_checked(
                mounts,
                allowed,
                host.cwd,
                Err(mount_error),
            );
        if let Cwd::Path { path } = host.cwd {
            if mounts.len() > 0 {
                law_mounts_are_refused_for_a_reason(mounts, allowed, path@, Err(mount_error));
            }
        }
    }
}

/// Of several wrong flags of a kind the first is named, where those of the command line come
/// before those of the configuration. Secrets are looked at first, then exposed ports of the
/// host, forwards, tunnels and mounts.
pub proof fn law_the_first_wrong_flag_is_named(
    vm: VmArgs,
    cfg: ShuruConfig,
    proxy: ProxyConfig,
    host: HostFacts,
    r: Result<VmPlan, PrepareError>,
    i: int,
)
    requires
        is_planned(vm, cfg, proxy, host, r),
        i >= 0,
    ensures
        ({
            let net = vm.allow_net || cfg.allow_net == Some(true);
            let ports = vm.port@ + listed(cfg.ports);
            let mounts = vm.mount@ + listed(cfg.mounts);
            &&& net && i < vm.secret@.len() && secret_of(vm.secret@[i]@) is Err ==> (r matches Err(
                PrepareError::Secret { flag, .. },
            ) && exists|k: int| 0 <= k <= i && flag == #[trigger] vm.secret@[k])
            &&& net && i < vm.expose_host@.len() && vm.expose_host@[i].mapping is None ==> (
            r matches Err(PrepareError::Secret { .. }) || (r matches Err(
                PrepareError::ExposeHost { flag },
            ) && exists|k: int|
                0 <= k <= i && flag == (#[trigger] vm.expose_host@[k]).flag
                    && vm.expose_host@[k].mapping is None))
            &&& i < ports.len() && port_of(ports[i]@) is None ==> (r matches Err(
                PrepareError::Secret { .. },
            ) || r matches Err(PrepareError::ExposeHost { .. }) || (r matches Err(
                PrepareError::Port { flag, .. },
            ) && exists|k: int| 0 <= k <= i && flag == #[trigger] ports[k]))
            &&& i < vm.kulfi@.len() && expose_of(vm.kulfi@[i]@) is None ==> (r matches Err(
                PrepareError::Secret { .. },
            ) || r matches Err(PrepareError::ExposeHost { .. }) || r matches Err(
                PrepareError::Port { .. },
            ) || (r matches Err(PrepareError::Kulfi { flag, .. }) && exists|k: int|
                0 <= k <= i && flag == #[trigger] vm.kulfi@[k]))
            &&& i < mounts.len() && !mount_spec_ok(
                mounts[i]@,
                resolved(host.canonical@, mounts[i]@),
            ) ==> (r is Err && !(r matches Err(PrepareError::Mounts { .. })) && (r matches Err(
                PrepareError::Mount { flag, .. },
            ) ==> exists|k: int| 0 <= k <= i && flag == #[trigger] mounts[k]))
        }),
{
    let ports = vm.port@ + listed(cfg.ports);
    let mounts = vm.mount@ + listed(cfg.mounts);
    if i < vm.expose_host@.len() && vm.expose_host@[i].mapping is None {
        assert(!exposed_ok(vm.expose_host@));
    }
    if i < ports.len() && port_of(ports[i]@) is None {
        assert(ports_of(ports) is None);
    }
    if i < vm.kulfi@.len() && expose_of(vm.kulfi@[i]@) is None {
        assert(exposes_of(vm.kulfi@) is None);
    }
    if i < mounts.len() && !mount_spec_ok(mounts[i]@, resolved(host.canonical@, mounts[i]@)) {
        assert(!mounts_ok(mounts, host.canonical@));
    }
}

} // verus!
