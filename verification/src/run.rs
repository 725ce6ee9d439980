//! From a plan to a running machine: which files it uses, what it is made of, and how
//! the run ends.

use crate::config::ProxyConfig;
use crate::encoding::{blake3_hex, blake3_text};
use crate::guest::{PortMapping, SandboxError};
use crate::kulfi::KulfiExpose;
use crate::machine::{
    are_requests_of, is_machine_of, law_machines_follow_their_settings, Machine, MountConfig,
    Serial, VmSettings,
};
use crate::sandbox::{Sandbox, VmState};
use crate::string_map::{copied, StringMap};
use crate::text::{
    cat, cat3, chars, decimal, decimal_text, lemma_radix_text_injective, opt_text, parse_i32,
    signed_number, str_eq, string_of, texts,
};
use crate::vm::{PrepareError, VmArgs, VmPlan};
use vstd::prelude::*;
use vstd::utf8::encode_utf8;

verus! {

/// The images that a machine boots from.
#[derive(Debug)]
pub struct ImagePaths {
    pub kernel: String,
    pub rootfs: String,
    pub initrd: String,
}

/// A path that was given, or else a file of the data directory.
pub open spec fn image_text(given: Option<String>, data_dir: Seq<char>, file: Seq<char>) -> Seq<
    char,
> {
    match given {
        Some(path) => path@,
        None => data_dir + file,
    }
}

fn image(given: &Option<String>, data_dir: &str, file: &str) -> (r: String)
    ensures
        r@ == image_text(*given, data_dir@, file@),
{
    match given {
        Some(path) => path.clone(),
        None => cat(data_dir, file),
    }
}

/// The images that a run boots from.
pub fn image_paths(vm: &VmArgs, data_dir: &str) -> (r: ImagePaths)
    ensures
        r.kernel@ == image_text(vm.kernel, data_dir@, "/Image"@),
        r.rootfs@ == image_text(vm.rootfs, data_dir@, "/rootfs.ext4"@),
        r.initrd@ == image_text(vm.initrd, data_dir@, "/initramfs.cpio.gz"@),
{
    ImagePaths {
        kernel: image(&vm.kernel, data_dir, "/Image"),
        rootfs: image(&vm.rootfs, data_dir, "/rootfs.ext4"),
        initrd: image(&vm.initrd, data_dir, "/initramfs.cpio.gz"),
    }
}

/// Whether the images have to be downloaded first. They are not where any of them was
/// given.
pub fn needs_download(vm: &VmArgs, assets_ready: bool) -> (r: bool)
    ensures
        r == (vm.kernel is None && vm.rootfs is None && vm.initrd is None && !assets_ready),
{
    vm.kernel.is_none() && vm.rootfs.is_none() && vm.initrd.is_none() && !assets_ready
}

/// The directory of the checkpoints.
pub open spec fn checkpoints_dir_text(data_dir: Seq<char>) -> Seq<char> {
    data_dir + "/checkpoints"@
}

/// The directory of the checkpoints.
pub fn checkpoints_dir(data_dir: &str) -> (r: String)
    ensures
        r@ == checkpoints_dir_text(data_dir@),
{
    cat(data_dir, "/checkpoints")
}

/// The file of a checkpoint, as an index or as an image.
pub open spec fn checkpoint_text(data_dir: Seq<char>, name: Seq<char>, index: bool) -> Seq<char> {
    checkpoints_dir_text(data_dir) + "/"@ + name + (if index {
        ".idx"@
    } else {
        ".ext4"@
    })
}

/// The file of a checkpoint, as an index or as an image.
pub fn checkpoint_path(data_dir: &str, name: &str, index: bool) -> (r: String)
    ensures
        r@ == checkpoint_text(data_dir@, name@, index),
{
    let mut r = cat3(checkpoints_dir(data_dir).as_str(), "/", name);
    if index {
        r.append(".idx");
    } else {
        r.append(".ext4");
    }
    r
}

/// What is on disk for a run.
#[derive(Debug)]
pub struct SourceFacts {
    pub kernel_exists: bool,
    pub rootfs_exists: bool,
    /// What is wrong with the checkpoint's name.
    pub name_error: Option<String>,
    pub index_exists: bool,
    pub image_exists: bool,
}

/// What a run's disk starts as.
#[derive(Debug)]
pub struct Source {
    pub path: String,
    /// The index of a checkpoint whose content is stored in chunks.
    pub cas_index: Option<String>,
}

/// Whether that is what a run's disk starts as. A checkpoint is looked for as an index
/// first.
pub open spec fn is_source(
    images: ImagePaths,
    data_dir: Seq<char>,
    from: Option<Seq<char>>,
    facts: SourceFacts,
    r: Result<Source, PrepareError>,
) -> bool {
    if !facts.kernel_exists {
        r == Err::<Source, _>(PrepareError::KernelMissing { path: images.kernel })
    } else {
        match from {
            Some(name) => if let Some(message) = facts.name_error {
                r == Err::<Source, _>(PrepareError::CheckpointName { message })
            } else if facts.index_exists {
                r matches Ok(s) && s.path@ == checkpoint_text(data_dir, name, true) && opt_text(
                    s.cas_index,
                ) == Some(s.path@)
            } else if facts.image_exists {
                r matches Ok(s) && s.path@ == checkpoint_text(data_dir, name, false)
                    && s.cas_index is None
            } else {
                r matches Err(PrepareError::CheckpointMissing { name: n }) && n@ == name
            },
            None => if facts.rootfs_exists {
                r == Ok::<_, PrepareError>(Source { path: images.rootfs, cas_index: None })
            } else {
                r == Err::<Source, _>(PrepareError::RootfsMissing { path: images.rootfs })
            },
        }
    }
}

/// Decides what a run's disk starts as.
pub fn choose_source(
    images: &ImagePaths,
    data_dir: &str,
    from: Option<&str>,
    facts: SourceFacts,
) -> (r: Result<Source, PrepareError>)
    ensures
        is_source(
            *images,
            data_dir@,
            match from {
                Some(name) => Some(name@),
                None => None,
            },
            facts,
            r,
        ),
{
    if !facts.kernel_exists {
        return Err(PrepareError::KernelMissing { path: images.kernel.clone() });
    }
    match from {
        Some(name) => {
            if let Some(message) = facts.name_error {
                return Err(PrepareError::CheckpointName { message });
            }
            if facts.index_exists {
                let path = checkpoint_path(data_dir, name, true);
                Ok(Source { path: path.clone(), cas_index: Some(path) })
            } else if facts.image_exists {
                Ok(Source { path: checkpoint_path(data_dir, name, false), cas_index: None })
            } else {
                Err(PrepareError::CheckpointMissing { name: name.to_owned() })
            }
        },
        None => if facts.rootfs_exists {
            Ok(Source { path: images.rootfs.clone(), cas_index: None })
        } else {
            Err(PrepareError::RootfsMissing { path: images.rootfs.clone() })
        },
    }
}

/// A run starts from the checkpoint that was named, its index before its image, and
/// without one from the root file system; and it is refused where what it needs is missing
/// or the name is wrong.
pub proof fn law_runs_start_from_what_was_named(
    images: ImagePaths,
    data_dir: Seq<char>,
    from: Option<Seq<char>>,
    facts: SourceFacts,
    r: Result<Source, PrepareError>,
)
    requires
        is_source(images, data_dir, from, facts, r),
    ensures
        r is Ok <==> facts.kernel_exists && (if from is Some {
            facts.name_error is None && (facts.index_exists || facts.image_exists)
        } else {
            facts.rootfs_exists
        }),
        from is None ==> (r matches Ok(s) ==> s.path@ == images.rootfs@ && s.cas_index is None),
        from matches Some(name) ==> (r matches Ok(s) ==> if facts.index_exists {
            s.path@ == data_dir + "/checkpoints"@ + "/"@ + name + ".idx"@ && (
            s.cas_index matches Some(index) && index@ == s.path@)
        } else {
            s.path@ == data_dir + "/checkpoints"@ + "/"@ + name + ".ext4"@ && s.cas_index is None
        }),
        !facts.kernel_exists ==> (r matches Err(PrepareError::KernelMissing { path }) && path@
            == images.kernel@),
        facts.kernel_exists && from is None && !facts.rootfs_exists ==> (r matches Err(
            PrepareError::RootfsMissing { path },
        ) && path@ == images.rootfs@),
        facts.kernel_exists && from is Some ==> (facts.name_error matches Some(why) ==> (
        r matches Err(PrepareError::CheckpointName { message }) && message@ == why@)),
        facts.kernel_exists && facts.name_error is None && !facts.index_exists
            && !facts.image_exists ==> (from matches Some(name) ==> (r matches Err(
            PrepareError::CheckpointMissing { name: n },
        ) && n@ == name)),
{
}

/// An image is the one that was given, and otherwise the one of that name in the data
/// directory.
pub proof fn law_given_images_win(given: Option<String>, data_dir: Seq<char>, file: Seq<char>)
    ensures
        given matches Some(path) ==> image_text(given, data_dir, file) == path@,
        given is None ==> image_text(given, data_dir, file) == data_dir + file,
{
}

/// The files of one run.
#[derive(Debug)]
pub struct Instance {
    pub dir: String,
    pub work_rootfs: String,
}

/// The directory of a run.
pub open spec fn instance_dir_text(data_dir: Seq<char>, pid: u32) -> Seq<char> {
    data_dir + "/instances/"@ + decimal_text(pid as nat)
}

/// The files of the run of a process.
pub fn instance_paths(data_dir: &str, pid: u32) -> (r: Instance)
    ensures
        r.dir@ == instance_dir_text(data_dir@, pid),
        r.work_rootfs@ == r.dir@ + "/rootfs.ext4"@,
{
    let dir = cat3(data_dir, "/instances/", decimal(pid as u64).as_str());
    let work_rootfs = cat(dir.as_str(), "/rootfs.ext4");
    Instance { dir, work_rootfs }
}

/// Two processes never share the directory of a run.
pub proof fn law_runs_have_their_own_directories(data_dir: Seq<char>, a: u32, b: u32)
    requires
        a != b,
    ensures
        instance_dir_text(data_dir, a) != instance_dir_text(data_dir, b),
        instance_dir_text(data_dir, a) == data_dir + "/instances/"@ + decimal_text(a as nat),
{
    let n = (data_dir + "/instances/"@).len() as int;
    assert(instance_dir_text(data_dir, a).skip(n) =~= decimal_text(a as nat));
    assert(instance_dir_text(data_dir, b).skip(n) =~= decimal_text(b as nat));
    if decimal_text(a as nat) == decimal_text(b as nat) {
        lemma_radix_text_injective(a as nat, b as nat, 10);
    }
}

/// Whether the run needs a copy of its disk. What is stored in chunks is read from them.
pub fn needs_copy(source: &Source) -> (r: bool)
    ensures
        r == source.cas_index is None,
{
    source.cas_index.is_none()
}

/// The size that a disk is to grow to, if it has to grow. It cannot shrink.
pub open spec fn disk_growth(disk_size: u64, current: u64) -> Result<Option<u64>, PrepareError> {
    let target = disk_size * 0x10_0000;
    if target < current {
        Err(PrepareError::DiskTooSmall { requested: disk_size, image: current })
    } else if target > current {
        Ok(Some(target as u64))
    } else {
        Ok(None)
    }
}

/// Decides what size a disk of `current` bytes grows to for a run with `disk_size` MB.
pub fn grow_disk(disk_size: u64, current: u64) -> (r: Result<Option<u64>, PrepareError>)
    requires
        disk_size * 0x10_0000 <= u64::MAX,
    ensures
        r == disk_growth(disk_size, current),
{
    let target = disk_size * 0x10_0000;
    if target < current {
        return Err(PrepareError::DiskTooSmall { requested: disk_size, image: current });
    }
    if target > current {
        Ok(Some(target))
    } else {
        Ok(None)
    }
}

/// A disk grows to exactly the size that was asked for and never shrinks: it is refused
/// where it is larger already, and left alone where it has the size.
pub proof fn law_disks_never_shrink(disk_size: u64, current: u64)
    requires
        disk_size * 1048576 <= u64::MAX,
    ensures
        disk_growth(disk_size, current) is Err <==> current > disk_size * 1048576,
        disk_growth(disk_size, current) matches Ok(Some(size)) ==> size == disk_size * 1048576
            && size > current,
        disk_growth(disk_size, current) == Ok::<Option<u64>, PrepareError>(None) ==> current
            == disk_size * 1048576,
        disk_growth(disk_size, current) matches Err(e) ==> e == (PrepareError::DiskTooSmall {
            requested: disk_size,
            image: current,
        }),
{
}

/// A run whose files are in place.
#[derive(Debug)]
pub struct PreparedVm {
    pub instance_dir: String,
    pub source_rootfs: String,
    pub work_rootfs: String,
    /// If restoring from a CAS checkpoint, the index path.
    pub cas_index: Option<String>,
    pub kernel_path: String,
    pub initrd_path: Option<String>,
    pub cpus: usize,
    pub memory: u64,
    pub disk_size: u64,
    pub proxy_config: Option<ProxyConfig>,
    pub verbose: bool,
    pub forwards: Vec<PortMapping>,
    pub kulfi_exposes: Vec<KulfiExpose>,
    pub kulfi_bridge_domain: String,
    pub mounts: Vec<MountConfig>,
}

/// Puts a run together. Without an initial RAM file system it boots without one.
pub fn prepare_vm(
    plan: VmPlan,
    images: ImagePaths,
    source: Source,
    instance: Instance,
    initrd_exists: bool,
) -> (r: PreparedVm)
    ensures
        r == (PreparedVm {
            instance_dir: instance.dir,
            source_rootfs: source.path,
            work_rootfs: instance.work_rootfs,
            cas_index: source.cas_index,
            kernel_path: images.kernel,
            initrd_path: if initrd_exists {
                Some(images.initrd)
            } else {
                None
            },
            cpus: plan.cpus,
            memory: plan.memory,
            disk_size: plan.disk_size,
            proxy_config: plan.proxy,
            verbose: plan.verbose,
            forwards: plan.forwards,
            kulfi_exposes: plan.exposes,
            kulfi_bridge_domain: plan.bridge_domain,
            mounts: plan.mounts,
        }),
{
    PreparedVm {
        instance_dir: instance.dir,
        source_rootfs: source.path,
        work_rootfs: instance.work_rootfs,
        cas_index: source.cas_index,
        kernel_path: images.kernel,
        initrd_path: if initrd_exists {
            Some(images.initrd)
        } else {
            None
        },
        cpus: plan.cpus,
        memory: plan.memory,
        disk_size: plan.disk_size,
        proxy_config: plan.proxy,
        verbose: plan.verbose,
        forwards: plan.forwards,
        kulfi_exposes: plan.exposes,
        kulfi_bridge_domain: plan.bridge_domain,
        mounts: plan.mounts,
    }
}

/// What is said where the initial RAM file system is missing.
pub fn initrd_warning(path: &str) -> (r: String)
    ensures
        r@ == "shuru: warning: initramfs not found at "@ + path@ + ", booting without it"@,
{
    cat3("shuru: warning: initramfs not found at ", path, ", booting without it")
}

/// Whether a machine's settings are those of a run.
pub open spec fn are_settings_of(
    s: VmSettings,
    prepared: PreparedVm,
    console: bool,
    network_fd: Option<i32>,
    nbd_uri: Option<Seq<char>>,
) -> bool {
    &&& opt_text(s.kernel) == Some(prepared.kernel_path@)
    &&& opt_text(s.rootfs) == Some(prepared.work_rootfs@)
    &&& opt_text(s.initrd) == opt_text(prepared.initrd_path)
    &&& s.cpus == prepared.cpus
    &&& s.memory_mb == prepared.memory
    &&& s.console == console
    &&& s.verbose == prepared.verbose
    &&& s.network_fd == network_fd
    &&& opt_text(s.nbd_uri) == nbd_uri
    &&& s.mounts@ == prepared.mounts@
}

/// Whether a machine is that of a run.
pub open spec fn is_machine_for(
    m: Machine,
    prepared: PreparedVm,
    console: bool,
    network_fd: Option<i32>,
    nbd_uri: Option<Seq<char>>,
    random: Seq<u8>,
) -> bool {
    exists|s: VmSettings| #[trigger]
        are_settings_of(s, prepared, console, network_fd, nbd_uri) && is_machine_of(m, s, random)
}

/// The machine of a run, and the sandbox that will talk to it.
pub fn build_sandbox(
    prepared: &PreparedVm,
    console: bool,
    network_fd: Option<i32>,
    nbd_uri: Option<&str>,
    supported: bool,
    random: [u8; 6],
) -> (r: Result<(Machine, Sandbox), SandboxError>)
    requires
        supported ==> prepared.memory * 0x10_0000 <= u64::MAX,
    ensures
        if supported {
            r matches Ok((machine, sandbox)) && is_machine_for(
                machine,
                *prepared,
                console,
                network_fd,
                match nbd_uri {
                    Some(uri) => Some(uri@),
                    None => None,
                },
                random@,
            ) && are_requests_of(sandbox.pending(), prepared.mounts@)
        } else {
            r == Err::<(Machine, Sandbox), _>(SandboxError::Unsupported)
        },
{
    let ghost uri = match nbd_uri {
        Some(u) => Some(u@),
        None => None,
    };
    let mut builder = Sandbox::builder().kernel(prepared.kernel_path.as_str()).rootfs(
        prepared.work_rootfs.as_str(),
    ).cpus(prepared.cpus).memory_mb(prepared.memory).console(console).verbose(prepared.verbose);
    if let Some(fd) = network_fd {
        builder = builder.network_fd(fd);
    }
    if let Some(u) = nbd_uri {
        builder = builder.nbd_uri(u);
    }
    if let Some(initrd) = &prepared.initrd_path {
        builder = builder.initrd(initrd.as_str());
    }
    let ghost first = builder.settings();
    let mut i: usize = 0;
    while i < prepared.mounts.len()
        invariant
            i <= prepared.mounts@.len(),
            builder.settings().mounts@ =~= prepared.mounts@.take(i as int),
            builder.settings() == (VmSettings { mounts: builder.settings().mounts, ..first }),
        decreases prepared.mounts@.len() - i,
    {
        builder = builder.mount(prepared.mounts[i].clone());
        i += 1;
    }
    let ghost s = builder.settings();
    assert(s.mounts@ =~= prepared.mounts@);
    assert(are_settings_of(s, *prepared, console, network_fd, uri));
    builder.build(supported, random)
}

/// The machine of a run has the processors, the memory, the images and the directories of
/// the run, and the kernel says as much as was asked for.
pub proof fn law_machines_are_those_of_their_runs(
    m: Machine,
    prepared: PreparedVm,
    console: bool,
    network_fd: Option<i32>,
    nbd_uri: Option<Seq<char>>,
    random: Seq<u8>,
    i: int,
)
    requires
        is_machine_for(m, prepared, console, network_fd, nbd_uri, random),
    ensures
        m.cpus == prepared.cpus,
        m.memory_bytes == prepared.memory * 1048576,
        m.kernel@ == prepared.kernel_path@,
        m.rootfs@ == prepared.work_rootfs@,
        match (m.initrd, prepared.initrd_path) {
            (Some(a), Some(b)) => a@ == b@,
            (None, None) => true,
            _ => false,
        },
        match (m.nbd_uri, nbd_uri) {
            (Some(a), Some(b)) => a@ == b,
            (None, None) => true,
            _ => false,
        },
        prepared.verbose ==> m.command_line@ == "console=hvc0 root=/dev/vda rw"@,
        !prepared.verbose ==> m.command_line@ == "console=hvc0 root=/dev/vda rw quiet"@,
        console ==> m.serial == Serial::Terminal,
        !console && prepared.verbose ==> m.serial == Serial::Stderr,
        !console && !prepared.verbose ==> m.serial == Serial::Discard,
        m.network is Some <==> network_fd is Some,
        network_fd matches Some(fd) ==> (m.network matches Some(d) && (
        d.attachment() matches Some(a) && a.fd() == fd)),
        m.shares@.len() == prepared.mounts@.len(),
        0 <= i < prepared.mounts@.len() ==> m.shares@[i].host_path == prepared.mounts@[i].host_path
            && m.shares@[i].read_only == prepared.mounts@[i].read_only && m.shares@[i].tag@
            == "mount"@ + decimal_text(i as nat),
{
    let s = choose|s: VmSettings| #[trigger]
        are_settings_of(s, prepared, console, network_fd, nbd_uri) && is_machine_of(m, s, random);
    law_machines_follow_their_settings(m, s, random);
    if 0 <= i < prepared.mounts@.len() {
        assert(m.shares@[i].tag@ == crate::machine::mount_tag(i as nat));
    }
}

/// A run without a socket for its network has no network device.
pub proof fn law_no_socket_no_device(
    m: Machine,
    prepared: PreparedVm,
    console: bool,
    nbd_uri: Option<Seq<char>>,
    random: Seq<u8>,
)
    requires
        is_machine_for(m, prepared, console, None, nbd_uri, random),
    ensures
        m.network is None,
{
}

/// A run's machine boots from the working copy of the run, so that what it starts from
/// stays as it is.
pub proof fn law_runs_use_the_working_copy(
    m: Machine,
    prepared: PreparedVm,
    console: bool,
    network_fd: Option<i32>,
    nbd_uri: Option<Seq<char>>,
    random: Seq<u8>,
)
    requires
        is_machine_for(m, prepared, console, network_fd, nbd_uri, random),
    ensures
        m.rootfs@ == prepared.work_rootfs@,
        m.kernel@ == prepared.kernel_path@,
{
}

/// What the block device server of a run is to serve.
#[derive(Debug)]
pub struct NbdPlan {
    pub source: String,
    pub cas_dir: String,
    pub index_path: String,
    pub socket_path: String,
    pub target_size: u64,
}

/// The index of an image that is stored in chunks: under the first 16 digits of the
/// digest of its path.
pub open spec fn index_text(data_dir: Seq<char>, source: Seq<char>) -> Seq<char> {
    data_dir + "/cas/indexes/"@ + blake3_text(encode_utf8(source)).take(16) + ".idx"@
}

fn index_path(data_dir: &str, source: &str) -> (r: String)
    ensures
        r@ == index_text(data_dir@, source@),
{
    let digest = blake3_hex(source.as_bytes());
    let digits = chars(digest.as_str());
    let head = string_of(&digits, 0, 16);
    assert(head@ =~= blake3_text(encode_utf8(source@)).take(16));
    let mut r = cat3(data_dir, "/cas/indexes/", head.as_str());
    r.append(".idx");
    r
}

/// Whether that is what the block device server of a run is to serve.
pub open spec fn is_nbd_plan(p: NbdPlan, prepared: PreparedVm, data_dir: Seq<char>) -> bool {
    &&& p.source == prepared.source_rootfs
    &&& p.cas_dir@ == data_dir + "/cas"@
    &&& p.index_path@ == (match prepared.cas_index {
        Some(index) => index@,
        None => index_text(data_dir, prepared.source_rootfs@),
    })
    &&& p.socket_path@ == prepared.instance_dir@ + "/nbd.sock"@
    &&& p.target_size == prepared.disk_size * 0x10_0000
}

/// The block device server of a run serves what the run starts from, at the size of its
/// disk and on a socket of the run's own. Its index is the checkpoint's, and otherwise one
/// that depends on nothing but the path of what it starts from.
pub proof fn law_runs_are_served_from_their_source(
    p: NbdPlan,
    prepared: PreparedVm,
    data_dir: Seq<char>,
)
    requires
        is_nbd_plan(p, prepared, data_dir),
    ensures
        p.source@ == prepared.source_rootfs@,
        p.target_size == prepared.disk_size * 1048576,
        p.cas_dir@ == data_dir + "/cas"@,
        p.socket_path@ == prepared.instance_dir@ + "/nbd.sock"@,
        prepared.cas_index matches Some(index) ==> p.index_path@ == index@,
        prepared.cas_index is None ==> p.index_path@ == data_dir + "/cas/indexes/"@ + blake3_text(
            encode_utf8(prepared.source_rootfs@),
        ).take(16) + ".idx"@,
{
}

/// Plans the block device server of a run. With direct storage there is none.
pub fn start_nbd(prepared: &PreparedVm, data_dir: &str, storage: &str) -> (r: Option<NbdPlan>)
    requires
        prepared.disk_size * 0x10_0000 <= u64::MAX,
    ensures
        if storage@ == "direct"@ {
            r is None
        } else {
            r matches Some(p) && is_nbd_plan(p, *prepared, data_dir@)
        },
{
    if str_eq(storage, "direct") {
        return None;
    }
    let index = match &prepared.cas_index {
        Some(index) => index.clone(),
        None => index_path(data_dir, prepared.source_rootfs.as_str()),
    };
    Some(
        NbdPlan {
            source: prepared.source_rootfs.clone(),
            cas_dir: cat(data_dir, "/cas"),
            index_path: index,
            socket_path: cat(prepared.instance_dir.as_str(), "/nbd.sock"),
            target_size: prepared.disk_size * 0x10_0000,
        },
    )
}

/// What is said when a machine boots.
pub open spec fn boot_text(prepared: PreparedVm) -> Seq<char> {
    "shuru: booting VM ("@ + decimal_text(prepared.cpus as nat) + "cpus, "@ + decimal_text(
        prepared.memory as nat,
    ) + "MB RAM, "@ + decimal_text(prepared.disk_size as nat) + "MB disk)..."@
}

/// What is said of the kernel of a run.
pub open spec fn kernel_text(prepared: PreparedVm) -> Seq<char> {
    "shuru: kernel="@ + prepared.kernel_path@
}

/// What is said of the disk of a run.
pub open spec fn rootfs_text(prepared: PreparedVm) -> Seq<char> {
    "shuru: rootfs="@ + prepared.work_rootfs@ + " (work copy)"@
}

/// What is said when a machine boots.
pub fn boot_notice(prepared: &PreparedVm) -> (r: String)
    ensures
        r@ == boot_text(*prepared),
{
    let mut r = cat3("shuru: booting VM (", decimal(prepared.cpus as u64).as_str(), "cpus, ");
    r.append(decimal(prepared.memory).as_str());
    r.append("MB RAM, ");
    r.append(decimal(prepared.disk_size).as_str());
    r.append("MB disk)...");
    r
}

/// What is said of the kernel and the disk of a run.
pub fn file_notices(prepared: &PreparedVm) -> (r: (String, String))
    ensures
        r.0@ == kernel_text(*prepared),
        r.1@ == rootfs_text(*prepared),
{
    (
        cat("shuru: kernel=", prepared.kernel_path.as_str()),
        cat3("shuru: rootfs=", prepared.work_rootfs.as_str(), " (work copy)"),
    )
}

/// What is said before the first stage of a run. A session says nothing, and a command's
/// run tells of its files only if it is verbose.
pub open spec fn opening_texts(prepared: PreparedVm, mode: RunMode) -> Seq<Seq<char>> {
    if mode is Stdio {
        Seq::empty()
    } else if mode is Console || prepared.verbose {
        seq![kernel_text(prepared), rootfs_text(prepared), boot_text(prepared)]
    } else {
        seq![boot_text(prepared)]
    }
}

/// What is said before the first stage of a run.
pub fn opening_notices(prepared: &PreparedVm, mode: RunMode) -> (r: Vec<String>)
    ensures
        texts(r@) == opening_texts(*prepared, mode),
{
    let mut r: Vec<String> = Vec::new();
    if mode != RunMode::Stdio {
        if mode == RunMode::Console || prepared.verbose {
            let (kernel, rootfs) = file_notices(prepared);
            r.push(kernel);
            r.push(rootfs);
        }
        r.push(boot_notice(prepared));
    }
    assert(texts(r@) =~= opening_texts(*prepared, mode));
    r
}

/// A session says nothing before its first stage, and every other run at least how it
/// boots; on the console, or where it is verbose, it first names its kernel and its disk.
pub proof fn law_runs_say_how_they_boot(prepared: PreparedVm, mode: RunMode)
    ensures
        ({
            let t = opening_texts(prepared, mode);
            &&& mode is Stdio <==> t.len() == 0
            &&& !(mode is Stdio) ==> t.last() == "shuru: booting VM ("@ + decimal_text(
                prepared.cpus as nat,
            ) + "cpus, "@ + decimal_text(prepared.memory as nat) + "MB RAM, "@ + decimal_text(
                prepared.disk_size as nat,
            ) + "MB disk)..."@
            &&& mode is Console || (mode is Command && prepared.verbose) <==> t.len() == 3
            &&& t.len() == 3 ==> t[0] == "shuru: kernel="@ + prepared.kernel_path@ && t[1]
                == "shuru: rootfs="@ + prepared.work_rootfs@ + " (work copy)"@
            &&& t.len() <= 3 && t.len() != 2
        }),
{
}

/// What is done in the guest so that it trusts the proxy.
pub struct TrustSteps {
    /// Where the proxy's certificate goes.
    pub path: String,
    /// The command to run then.
    pub argv: Vec<String>,
}

/// What has to be done in the guest before commands run there: nothing where there are
/// no secrets, as the proxy then looks into no connection.
pub fn trust_steps(placeholders: &StringMap<String>) -> (r: Option<TrustSteps>)
    ensures
        if placeholders@.len() == 0 {
            r is None
        } else {
            r matches Some(s) && s.path@ == "/usr/local/share/ca-certificates/shuru-proxy.crt"@
                && texts(s.argv@) == seq!["update-ca-certificates"@, "--fresh"@]
        },
{
    if placeholders.is_empty() {
        return None;
    }
    let mut argv: Vec<String> = Vec::new();
    argv.push("update-ca-certificates".to_owned());
    argv.push("--fresh".to_owned());
    assert(texts(argv@) =~= seq!["update-ca-certificates"@, "--fresh"@]);
    Some(
        TrustSteps {
            path: "/usr/local/share/ca-certificates/shuru-proxy.crt".to_owned(),
            argv,
        },
    )
}

/// The environment that commands in the guest get: the placeholders of the secrets, and
/// never a secret itself.
pub fn guest_env(placeholders: &StringMap<String>) -> (r: StringMap<String>)
    ensures
        r@ == placeholders@,
{
    copied(placeholders)
}

/// What a run on the serial console does next.
pub enum ConsoleStep {
    Continue,
    Exit { message: Option<String>, code: i32 },
}

/// Decides what a run on the serial console does next, where the machine may have told
/// its state, or tells no more.
pub fn console_step(state: Option<VmState>) -> (r: ConsoleStep)
    ensures
        match state {
            Some(VmState::Stopped) => r matches ConsoleStep::Exit { message: Some(m), code }
                && m@ == "shuru: VM stopped"@ && code == 0,
            Some(VmState::Error) => r matches ConsoleStep::Exit { message: Some(m), code }
                && m@ == "shuru: VM encountered an error"@ && code == 1,
            Some(VmState::Other) => r is Continue,
            None => r == (ConsoleStep::Exit { message: None, code: 0 }),
        },
{
    match state {
        Some(VmState::Stopped) => ConsoleStep::Exit {
            message: Some("shuru: VM stopped".to_owned()),
            code: 0,
        },
        Some(VmState::Error) => ConsoleStep::Exit {
            message: Some("shuru: VM encountered an error".to_owned()),
            code: 1,
        },
        Some(VmState::Other) => ConsoleStep::Continue,
        None => ConsoleStep::Exit { message: None, code: 0 },
    }
}

/// The process whose run left a directory of that name, if the name is that of a run.
pub fn instance_owner(name: &str) -> (r: Option<i32>)
    ensures
        match r {
            Some(pid) => signed_number(name@) == Some(pid as int),
            None => signed_number(name@) is None,
        },
{
    parse_i32(name)
}

/// What is said after the leftovers of runs were removed.
pub fn prune_notice(removed: u32) -> (r: String)
    ensures
        if removed == 0 {
            r@ == "shuru: no orphaned instances found"@
        } else {
            r@ == "shuru: removed "@ + decimal_text(removed as nat) + " orphaned instance(s)"@
        },
{
    if removed == 0 {
        "shuru: no orphaned instances found".to_owned()
    } else {
        cat3("shuru: removed ", decimal(removed as u64).as_str(), " orphaned instance(s)")
    }
}

/// How a machine is used.
#[derive(Debug, Clone, Copy, PartialEq, Eq, Structural)]
pub enum RunMode {
    /// Runs a command, on the host's terminal if there is one.
    Command { terminal: bool },
    /// Serves requests that come in on standard input.
    Stdio,
    /// Attaches to the serial console.
    Console,
}

/// How a machine is used, by the flags that say so.
pub fn run_mode(stdio: bool, console: bool, terminal: bool) -> (r: RunMode)
    ensures
        r == (if stdio {
            RunMode::Stdio
        } else if console {
            RunMode::Console
        } else {
            RunMode::Command { terminal }
        }),
{
    if stdio {
        RunMode::Stdio
    } else if console {
        RunMode::Console
    } else {
        RunMode::Command { terminal }
    }
}

/// The stages of a run.
#[derive(Debug, Clone, Copy, PartialEq, Eq, Structural)]
pub enum Stage {
    /// Start the proxy, on one end of a new socket pair.
    Proxy,
    /// Start the block device server.
    Nbd,
    /// Create the machine.
    Build,
    /// Start the machine.
    Boot,
    /// Start to forward ports.
    Forward,
    /// Start the tunnels.
    Tunnels,
    /// Make the guest trust the proxy.
    Trust,
    /// Run the command on the host's terminal.
    Shell,
    /// Run the command without a terminal.
    Exec,
    /// Serve requests, and stop the machine after the last.
    Serve,
    /// Wait on the serial console.
    Console,
    /// Stop the machine.
    Stop,
}

/// Whether a run has secrets to inject.
pub open spec fn has_secrets(prepared: PreparedVm) -> bool {
    prepared.proxy_config matches Some(p) && p.secrets@.len() > 0
}

/// The stage, if it is wanted.
pub open spec fn wanted_stage(wanted: bool, stage: Stage) -> Seq<Stage> {
    if wanted {
        seq![stage]
    } else {
        Seq::empty()
    }
}

/// The stages of a run, in order.
pub open spec fn stage_list(prepared: PreparedVm, mode: RunMode) -> Seq<Stage> {
    match mode {
        RunMode::Command { terminal } => wanted_stage(
            prepared.proxy_config is Some,
            Stage::Proxy,
        ) + seq![Stage::Nbd, Stage::Build, Stage::Boot] + wanted_stage(
            prepared.forwards@.len() > 0,
            Stage::Forward,
        ) + wanted_stage(prepared.kulfi_exposes@.len() > 0, Stage::Tunnels) + wanted_stage(
            has_secrets(prepared),
            Stage::Trust,
        ) + seq![
            if terminal {
                Stage::Shell
            } else {
                Stage::Exec
            },
            Stage::Stop,
        ],
        RunMode::Stdio => wanted_stage(prepared.proxy_config is Some, Stage::Proxy) + seq![
            Stage::Build,
            Stage::Boot,
        ] + wanted_stage(has_secrets(prepared), Stage::Trust) + wanted_stage(
            prepared.forwards@.len() > 0,
            Stage::Forward,
        ) + seq![Stage::Serve],
        RunMode::Console => seq![Stage::Build, Stage::Boot, Stage::Console],
    }
}

/// The place of a stage among the stages of a run.
pub open spec fn rank(mode: RunMode, stage: Stage) -> int {
    match stage {
        Stage::Proxy => 0,
        Stage::Nbd => 1,
        Stage::Build => 2,
        Stage::Boot => 3,
        Stage::Forward => if mode is Stdio {
            7
        } else {
            4
        },
        Stage::Tunnels => 5,
        Stage::Trust => 6,
        Stage::Shell => 8,
        Stage::Exec => 8,
        Stage::Serve => 8,
        Stage::Console => 8,
        Stage::Stop => 9,
    }
}

spec fn in_order(mode: RunMode, s: Seq<Stage>, bound: int) -> bool {
    &&& forall|i: int| 0 <= i < s.len() ==> rank(mode, #[trigger] s[i]) < bound
    &&& forall|i: int, j: int|
        0 <= i < j < s.len() ==> rank(mode, #[trigger] s[i]) < rank(mode, #[trigger] s[j])
}

proof fn lemma_one_more(mode: RunMode, s: Seq<Stage>, bound: int, wanted: bool, stage: Stage)
    requires
        in_order(mode, s, bound),
        bound <= rank(mode, stage),
    ensures
        in_order(mode, s + wanted_stage(wanted, stage), rank(mode, stage) + 1),
{
    let t = s + wanted_stage(wanted, stage);
    assert forall|i: int, j: int| 0 <= i < j < t.len() implies rank(mode, #[trigger] t[i]) < rank(
        mode,
        #[trigger] t[j],
    ) by {
        assert(t[i] == s[i]);
        if j < s.len() {
            assert(t[j] == s[j]);
        }
    }
}

/// Every stage of a run has its place, and comes at most once: the proxy is there before
/// the machine is created, the machine is created before it starts, and the guest trusts
/// the proxy before the first command of the user.
pub proof fn law_stages_are_in_order(prepared: PreparedVm, mode: RunMode, i: int, j: int)
    requires
        0 <= i < j < stage_list(prepared, mode).len(),
    ensures
        rank(mode, stage_list(prepared, mode)[i]) < rank(mode, stage_list(prepared, mode)[j]),
{
    let none = Seq::<Stage>::empty();
    let proxy = prepared.proxy_config is Some;
    let forward = prepared.forwards@.len() > 0;
    let tunnels = prepared.kulfi_exposes@.len() > 0;
    let secrets = has_secrets(prepared);
    lemma_one_more(mode, none, 0, proxy, Stage::Proxy);
    let a = none + wanted_stage(proxy, Stage::Proxy);
    assert(a =~= wanted_stage(proxy, Stage::Proxy));
    match mode {
        RunMode::Command { terminal } => {
            let last = if terminal {
                Stage::Shell
            } else {
                Stage::Exec
            };
            lemma_one_more(mode, a, 1, true, Stage::Nbd);
            let b = a + wanted_stage(true, Stage::Nbd);
            lemma_one_more(mode, b, 2, true, Stage::Build);
            let c = b + wanted_stage(true, Stage::Build);
            lemma_one_more(mode, c, 3, true, Stage::Boot);
            let d = c + wanted_stage(true, Stage::Boot);
            assert(d =~= a + seq![Stage::Nbd, Stage::Build, Stage::Boot]);
            lemma_one_more(mode, d, 4, forward, Stage::Forward);
            let e = d + wanted_stage(forward, Stage::Forward);
            lemma_one_more(mode, e, 5, tunnels, Stage::Tunnels);
            let f = e + wanted_stage(tunnels, Stage::Tunnels);
            lemma_one_more(mode, f, 6, secrets, Stage::Trust);
            let g = f + wanted_stage(secrets, Stage::Trust);
            lemma_one_more(mode, g, 7, true, last);
            let h = g + wanted_stage(true, last);
            lemma_one_more(mode, h, 9, true, Stage::Stop);
            assert(h + wanted_stage(true, Stage::Stop) =~= stage_list(prepared, mode));
        },
        RunMode::Stdio => {
            lemma_one_more(mode, a, 1, true, Stage::Build);
            let b = a + wanted_stage(true, Stage::Build);
            lemma_one_more(mode, b, 3, true, Stage::Boot);
            let c = b + wanted_stage(true, Stage::Boot);
            assert(c =~= a + seq![Stage::Build, Stage::Boot]);
            lemma_one_more(mode, c, 4, secrets, Stage::Trust);
            let d = c + wanted_stage(secrets, Stage::Trust);
            lemma_one_more(mode, d, 7, forward, Stage::Forward);
            let e = d + wanted_stage(forward, Stage::Forward);
            lemma_one_more(mode, e, 8, true, Stage::Serve);
            assert(e + wanted_stage(true, Stage::Serve) =~= stage_list(prepared, mode));
        },
        RunMode::Console => {
            lemma_one_more(mode, none, 0, true, Stage::Build);
            let b = none + wanted_stage(true, Stage::Build);
            lemma_one_more(mode, b, 3, true, Stage::Boot);
            let c = b + wanted_stage(true, Stage::Boot);
            lemma_one_more(mode, c, 4, true, Stage::Console);
            assert(c + wanted_stage(true, Stage::Console) =~= stage_list(prepared, mode));
        },
    }
}

/// A run has the stages that it needs and no others. One that is not on the console has
/// the proxy exactly if it has a configuration for it, forwards ports exactly if there are
/// any, and makes the guest trust the proxy exactly if there are secrets; one of a command
/// has tunnels exactly if any are asked for. Every run creates its machine and starts it.
pub proof fn law_runs_have_the_stages_they_need(prepared: PreparedVm, mode: RunMode)
    ensures
        ({
            let l = stage_list(prepared, mode);
            let secrets = prepared.proxy_config matches Some(p) && p.secrets@.len() > 0;
            &&& l.contains(Stage::Build) && l.contains(Stage::Boot)
            &&& l.contains(Stage::Proxy) <==> !(mode is Console) && prepared.proxy_config is Some
            &&& l.contains(Stage::Forward) <==> !(mode is Console) && prepared.forwards@.len() > 0
            &&& l.contains(Stage::Trust) <==> !(mode is Console) && secrets
            &&& l.contains(Stage::Nbd) <==> mode is Command
            &&& l.contains(Stage::Tunnels) <==> mode is Command && prepared.kulfi_exposes@.len()
                > 0
            &&& l.contains(Stage::Shell) <==> mode == (RunMode::Command { terminal: true })
            &&& l.contains(Stage::Exec) <==> mode == (RunMode::Command { terminal: false })
            &&& l.contains(Stage::Serve) <==> mode is Stdio
            &&& l.contains(Stage::Console) <==> mode is Console
            &&& l.contains(Stage::Stop) <==> mode is Command
            &&& mode is Command ==> l.last() == Stage::Stop
            &&& mode is Stdio ==> l.last() == Stage::Serve
            &&& mode is Console ==> l.last() == Stage::Console
        }),
{
    let l = stage_list(prepared, mode);
    let p = wanted_stage(prepared.proxy_config is Some, Stage::Proxy).len() as int;
    let f = wanted_stage(prepared.forwards@.len() > 0, Stage::Forward).len() as int;
    let k = wanted_stage(prepared.kulfi_exposes@.len() > 0, Stage::Tunnels).len() as int;
    let t = wanted_stage(has_secrets(prepared), Stage::Trust).len() as int;
    match mode {
        RunMode::Command { terminal } => {
            let end = if terminal {
                Stage::Shell
            } else {
                Stage::Exec
            };
            assert(l.len() == p + 3 + f + k + t + 2);
            assert(l[p] == Stage::Nbd && l[p + 1] == Stage::Build && l[p + 2] == Stage::Boot);
            assert(p == 1 ==> l[0] == Stage::Proxy);
            assert(f == 1 ==> l[p + 3] == Stage::Forward);
            assert(k == 1 ==> l[p + 3 + f] == Stage::Tunnels);
            assert(t == 1 ==> l[p + 3 + f + k] == Stage::Trust);
            assert(l[p + 3 + f + k + t] == end && l[p + 4 + f + k + t] == Stage::Stop);
            assert(forall|i: int|
                0 <= i < l.len() ==> #[trigger] l[i] == Stage::Nbd || l[i] == Stage::Build || l[i]
                    == Stage::Boot || l[i] == end || l[i] == Stage::Stop || (p == 1 && l[i]
                    == Stage::Proxy) || (f == 1 && l[i] == Stage::Forward) || (k == 1 && l[i]
                    == Stage::Tunnels) || (t == 1 && l[i] == Stage::Trust));
        },
        RunMode::Stdio => {
            assert(l.len() == p + 2 + t + f + 1);
            assert(l[p] == Stage::Build && l[p + 1] == Stage::Boot);
            assert(p == 1 ==> l[0] == Stage::Proxy);
            assert(t == 1 ==> l[p + 2] == Stage::Trust);
            assert(f == 1 ==> l[p + 2 + t] == Stage::Forward);
            assert(l[p + 2 + t + f] == Stage::Serve);
            assert(forall|i: int|
                0 <= i < l.len() ==> #[trigger] l[i] == Stage::Build || l[i] == Stage::Boot || l[i]
                    == Stage::Serve || (p == 1 && l[i] == Stage::Proxy) || (f == 1 && l[i]
                    == Stage::Forward) || (t == 1 && l[i] == Stage::Trust));
        },
        RunMode::Console => {
            assert(l[0] == Stage::Build && l[1] == Stage::Boot && l[2] == Stage::Console);
        },
    }
}

/// Whether a stage, wherever it stands in a list, stands before another.
pub open spec fn comes_before(l: Seq<Stage>, first: Stage, then_stage: Stage) -> bool {
    forall|i: int, j: int|
        0 <= i < l.len() && 0 <= j < l.len() && #[trigger] l[i] == first && #[trigger] l[j]
            == then_stage ==> i < j
}

/// The proxy and the block device server are there before the machine is created, which
/// is created before it starts; a port is forwarded, a tunnel opened and the proxy trusted
/// once it has started, and before the first command or request; and a run stops its
/// machine last.
pub proof fn law_stages_wait_for_each_other(prepared: PreparedVm, mode: RunMode)
    ensures
        ({
            let l = stage_list(prepared, mode);
            &&& comes_before(l, Stage::Proxy, Stage::Build)
            &&& comes_before(l, Stage::Nbd, Stage::Build)
            &&& comes_before(l, Stage::Build, Stage::Boot)
            &&& comes_before(l, Stage::Boot, Stage::Forward)
            &&& comes_before(l, Stage::Boot, Stage::Tunnels)
            &&& comes_before(l, Stage::Boot, Stage::Trust)
            &&& comes_before(l, Stage::Boot, Stage::Shell)
            &&& comes_before(l, Stage::Boot, Stage::Exec)
            &&& comes_before(l, Stage::Boot, Stage::Serve)
            &&& comes_before(l, Stage::Boot, Stage::Console)
            &&& comes_before(l, Stage::Forward, Stage::Shell)
            &&& comes_before(l, Stage::Forward, Stage::Exec)
            &&& comes_before(l, Stage::Forward, Stage::Serve)
            &&& comes_before(l, Stage::Tunnels, Stage::Shell)
            &&& comes_before(l, Stage::Tunnels, Stage::Exec)
            &&& comes_before(l, Stage::Trust, Stage::Shell)
            &&& comes_before(l, Stage::Trust, Stage::Exec)
            &&& comes_before(l, Stage::Trust, Stage::Serve)
            &&& comes_before(l, Stage::Shell, Stage::Stop)
            &&& comes_before(l, Stage::Exec, Stage::Stop)
        }),
{
    let l = stage_list(prepared, mode);
    assert forall|i: int, j: int|
        0 <= i < l.len() && 0 <= j < l.len() && rank(mode, #[trigger] l[i]) < rank(
            mode,
            #[trigger] l[j],
        ) implies i < j by {
        if j < i {
            law_stages_are_in_order(prepared, mode, j, i);
        }
    }
    assert(mode is Stdio ==> rank(mode, Stage::Forward) == 7);
}

/// Where there are secrets, the guest of a run that takes commands is made to trust the
/// proxy.
pub proof fn law_secrets_need_trust(prepared: PreparedVm, mode: RunMode)
    requires
        has_secrets(prepared),
        !(mode is Console),
    ensures
        stage_list(prepared, mode).contains(Stage::Trust),
{
    let l = stage_list(prepared, mode);
    if mode is Command {
        let f = wanted_stage(prepared.forwards@.len() > 0, Stage::Forward).len() as int;
        let k = wanted_stage(prepared.kulfi_exposes@.len() > 0, Stage::Tunnels).len() as int;
        assert(l[4 + f + k] == Stage::Trust);
    } else {
        assert(l[3] == Stage::Trust);
    }
}

/// The stages of a run, in order.
pub fn stages(prepared: &PreparedVm, mode: RunMode) -> (r: Vec<Stage>)
    ensures
        r@ == stage_list(*prepared, mode),
{
    let mut r: Vec<Stage> = Vec::new();
    if let RunMode::Console = mode {
        r.push(Stage::Build);
        r.push(Stage::Boot);
        r.push(Stage::Console);
        assert(r@ =~= stage_list(*prepared, mode));
        return r;
    }
    let secrets = match &prepared.proxy_config {
        Some(p) => !p.secrets.is_empty(),
        None => false,
    };
    if prepared.proxy_config.is_some() {
        r.push(Stage::Proxy);
    }
    match mode {
        RunMode::Command { terminal } => {
            r.push(Stage::Nbd);
            r.push(Stage::Build);
            r.push(Stage::Boot);
            if prepared.forwards.len() > 0 {
                r.push(Stage::Forward);
            }
            if prepared.kulfi_exposes.len() > 0 {
                r.push(Stage::Tunnels);
            }
            if secrets {
                r.push(Stage::Trust);
            }
            if terminal {
                r.push(Stage::Shell);
            } else {
                r.push(Stage::Exec);
            }
            r.push(Stage::Stop);
        },
        _ => {
            r.push(Stage::Build);
            r.push(Stage::Boot);
            if secrets {
                r.push(Stage::Trust);
            }
            if prepared.forwards.len() > 0 {
                r.push(Stage::Forward);
            }
            r.push(Stage::Serve);
        },
    }
    assert(r@ =~= stage_list(*prepared, mode));
    r
}

/// What is said once a stage is done. A command's run says it only if it is verbose.
pub open spec fn stage_text(stage: Stage, mode: RunMode, verbose: bool) -> Option<Seq<char>> {
    match (mode, stage) {
        (RunMode::Command { .. }, Stage::Proxy) => if verbose {
            Some("shuru: proxy started"@)
        } else {
            None
        },
        (RunMode::Command { .. }, Stage::Build) => if verbose {
            Some("shuru: VM created and validated successfully"@)
        } else {
            None
        },
        (RunMode::Command { .. }, Stage::Boot) => if verbose {
            Some("shuru: VM started, waiting for guest..."@)
        } else {
            None
        },
        (RunMode::Command { .. }, Stage::Trust) => if verbose {
            Some("shuru: proxy CA certificate injected"@)
        } else {
            None
        },
        (RunMode::Console, Stage::Build) => Some("shuru: VM created and validated successfully"@),
        (RunMode::Console, Stage::Boot) => Some("shuru: VM started"@),
        _ => None,
    }
}

/// What is said once a stage is done.
pub fn stage_notice(stage: Stage, mode: RunMode, verbose: bool) -> (r: Option<String>)
    ensures
        match r {
            Some(text) => stage_text(stage, mode, verbose) == Some(text@),
            None => stage_text(stage, mode, verbose) is None,
        },
{
    match mode {
        RunMode::Command { .. } => if !verbose {
            None
        } else {
            match stage {
                Stage::Proxy => Some("shuru: proxy started".to_owned()),
                Stage::Build => Some("shuru: VM created and validated successfully".to_owned()),
                Stage::Boot => Some("shuru: VM started, waiting for guest...".to_owned()),
                Stage::Trust => Some("shuru: proxy CA certificate injected".to_owned()),
                _ => None,
            }
        },
        RunMode::Console => match stage {
            Stage::Build => Some("shuru: VM created and validated successfully".to_owned()),
            Stage::Boot => Some("shuru: VM started".to_owned()),
            _ => None,
        },
        RunMode::Stdio => None,
    }
}

/// A session says nothing of its stages, and a command's run only if it is verbose.
pub proof fn law_quiet_runs_are_quiet(stage: Stage, terminal: bool, verbose: bool)
    ensures
        stage_text(stage, RunMode::Stdio, verbose) is None,
        stage_text(stage, RunMode::Command { terminal }, false) is None,
        stage_text(stage, RunMode::Command { terminal }, true) is Some <==> stage == Stage::Proxy
            || stage == Stage::Build || stage == Stage::Boot || stage == Stage::Trust,
        stage_text(stage, RunMode::Console, verbose) is Some <==> stage == Stage::Build || stage
            == Stage::Boot,
{
}

/// A command's run says nothing unless it is verbose, and then says when the proxy, the
/// machine and its start are done and the guest trusts the proxy. A console says when the
/// machine is created and started, and a run that is served says nothing.
pub proof fn law_stages_are_announced(stage: Stage, mode: RunMode, verbose: bool)
    ensures
        ({
            let text = stage_text(stage, mode, verbose);
            let created = "shuru: VM created and validated successfully"@;
            match mode {
                RunMode::Command { .. } => text == (if !verbose {
                    None
                } else if stage is Proxy {
                    Some("shuru: proxy started"@)
                } else if stage is Build {
                    Some(created)
                } else if stage is Boot {
                    Some("shuru: VM started, waiting for guest..."@)
                } else if stage is Trust {
                    Some("shuru: proxy CA certificate injected"@)
                } else {
                    None
                }),
                RunMode::Stdio => text is None,
                RunMode::Console => text == (if stage is Build {
                    Some(created)
                } else if stage is Boot {
                    Some("shuru: VM started"@)
                } else {
                    None
                }),
            }
        }),
{
}

} // verus!
