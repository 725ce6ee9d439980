//! What a virtual machine is made of.

use crate::guest::{MountRequest, SandboxError};
use crate::network::{
    law_local_address, law_local_address_is_random, local_address, FileHandleNetworkAttachment,
    MACAddress, VirtioNetworkDevice, NETWORK_MTU,
};
use crate::sandbox::Sandbox;
use crate::text::{cat, decimal, decimal_text, lemma_radix_text_injective};
use vstd::prelude::*;

verus! {

/// A host directory that the guest mounts.
#[derive(Debug)]
pub struct MountConfig {
    pub host_path: String,
    pub guest_path: String,
    /// Guest writes do not reach the host.
    pub read_only: bool,
}

impl Clone for MountConfig {
    fn clone(&self) -> (r: Self)
        ensures
            r == *self,
    {
        MountConfig {
            host_path: self.host_path.clone(),
            guest_path: self.guest_path.clone(),
            read_only: self.read_only,
        }
    }
}

/// What a builder was told.
pub struct VmSettings {
    pub kernel: Option<String>,
    pub rootfs: Option<String>,
    pub initrd: Option<String>,
    pub cpus: usize,
    pub memory_mb: u64,
    pub console: bool,
    pub verbose: bool,
    pub network_fd: Option<i32>,
    pub nbd_uri: Option<String>,
    pub mounts: Vec<MountConfig>,
}

/// Where the guest's serial console leads.
#[derive(Debug, Clone, Copy, PartialEq, Eq, Structural)]
pub enum Serial {
    /// To standard input and standard output.
    Terminal,
    /// To standard error, with no input.
    Stderr,
    /// Nowhere.
    Discard,
}

/// A host directory that is shared with the guest.
#[derive(Debug)]
pub struct Share {
    pub tag: String,
    pub host_path: String,
    pub read_only: bool,
}

/// How the host caches a disk.
#[derive(Debug, Clone, Copy, PartialEq, Eq, Structural)]
pub enum DiskCaching {
    Automatic,
    Uncached,
    Cached,
}

/// How a guest's flush of its disk reaches the host's.
#[derive(Debug, Clone, Copy, PartialEq, Eq, Structural)]
pub enum DiskSync {
    Full,
    Fsync,
    Ignored,
}

/// How a disk is attached.
#[derive(Debug, Clone, Copy, PartialEq, Eq, Structural)]
pub struct DiskOptions {
    pub read_only: bool,
    pub caching: DiskCaching,
    pub sync: DiskSync,
}

/// How the disk of every machine is attached: the guest writes to it, the host caches it,
/// and what the guest flushes is synchronized.
pub fn disk_options() -> (r: DiskOptions)
    ensures
        !r.read_only,
        r.caching == DiskCaching::Cached,
        r.sync == DiskSync::Fsync,
{
    DiskOptions { read_only: false, caching: DiskCaching::Cached, sync: DiskSync::Fsync }
}

/// A device without settings.
#[derive(Debug, Clone, Copy, PartialEq, Eq, Structural)]
pub enum Device {
    /// Connects host and guest.
    Socket,
    /// Gives the guest randomness.
    Entropy,
    /// Takes memory back from the guest.
    MemoryBalloon,
}

/// The devices that every machine has.
pub open spec fn fixed_device_list() -> Seq<Device> {
    seq![Device::Socket, Device::Entropy, Device::MemoryBalloon]
}

/// The devices that every machine has.
pub fn fixed_devices() -> (r: Vec<Device>)
    ensures
        r@ == fixed_device_list(),
{
    let mut r: Vec<Device> = Vec::new();
    r.push(Device::Socket);
    r.push(Device::Entropy);
    r.push(Device::MemoryBalloon);
    assert(r@ =~= fixed_device_list());
    r
}

/// A virtual machine, ready to be created.
#[derive(Debug)]
pub struct Machine {
    pub kernel: String,
    pub initrd: Option<String>,
    pub command_line: String,
    pub cpus: usize,
    pub memory_bytes: u64,
    pub serial: Serial,
    pub rootfs: String,
    /// How the disk is attached.
    pub disk: DiskOptions,
    /// Where the disk is served, if not from the root file system's image.
    pub nbd_uri: Option<String>,
    pub network: Option<VirtioNetworkDevice>,
    pub shares: Vec<Share>,
    /// The devices that every machine has.
    pub devices: Vec<Device>,
}

/// The tag of the `i`th shared directory.
pub open spec fn mount_tag(i: nat) -> Seq<char> {
    "mount"@ + decimal_text(i)
}

/// No two shared directories have the same tag.
pub proof fn law_mount_tags_differ(i: nat, j: nat)
    requires
        i != j,
    ensures
        mount_tag(i) != mount_tag(j),
{
    if mount_tag(i) == mount_tag(j) {
        let a = decimal_text(i);
        let b = decimal_text(j);
        assert(mount_tag(i).skip("mount"@.len() as int) =~= a);
        assert(mount_tag(j).skip("mount"@.len() as int) =~= b);
        lemma_radix_text_injective(i, j, 10);
    }
}

/// The kernel's command line. Without `verbose` the kernel is quiet.
pub open spec fn command_line_text(verbose: bool) -> Seq<char> {
    if verbose {
        "console=hvc0 root=/dev/vda rw"@
    } else {
        "console=hvc0 root=/dev/vda rw quiet"@
    }
}

/// Where the serial console leads.
pub open spec fn serial_of(console: bool, verbose: bool) -> Serial {
    if console {
        Serial::Terminal
    } else if verbose {
        Serial::Stderr
    } else {
        Serial::Discard
    }
}

/// Whether the device is the network device of a machine with that descriptor.
pub open spec fn is_network_of(
    device: Option<VirtioNetworkDevice>,
    fd: Option<i32>,
    random: Seq<u8>,
) -> bool {
    match fd {
        Some(fd) => device matches Some(d) && d.mac() == local_address(random) && (
        d.attachment() matches Some(a) && a.fd() == fd && a.mtu() == NETWORK_MTU),
        None => device is None,
    }
}

/// Whether the shares are those of the mounts, each under its own tag.
pub open spec fn are_shares_of(shares: Seq<Share>, mounts: Seq<MountConfig>) -> bool {
    &&& shares.len() == mounts.len()
    &&& forall|i: int|
        0 <= i < shares.len() ==> {
            &&& (#[trigger] shares[i]).tag@ == mount_tag(i as nat)
            &&& shares[i].host_path == mounts[i].host_path
            &&& shares[i].read_only == mounts[i].read_only
        }
}

/// Whether the requests are those of the mounts, each under the tag of its share.
pub open spec fn are_requests_of(requests: Seq<MountRequest>, mounts: Seq<MountConfig>) -> bool {
    &&& requests.len() == mounts.len()
    &&& forall|i: int|
        0 <= i < requests.len() ==> {
            &&& (#[trigger] requests[i]).tag@ == mount_tag(i as nat)
            &&& requests[i].guest_path == mounts[i].guest_path
            &&& requests[i].read_only == mounts[i].read_only
        }
}

/// Whether the machine is what the settings ask for.
pub open spec fn is_machine_of(m: Machine, s: VmSettings, random: Seq<u8>) -> bool {
    &&& s.kernel == Some(m.kernel)
    &&& s.rootfs == Some(m.rootfs)
    &&& m.initrd == s.initrd
    &&& m.command_line@ == command_line_text(s.verbose)
    &&& m.cpus == s.cpus
    &&& m.memory_bytes == s.memory_mb * 0x10_0000
    &&& m.serial == serial_of(s.console, s.verbose)
    &&& !m.disk.read_only
    &&& m.disk.caching == DiskCaching::Cached
    &&& m.disk.sync == DiskSync::Fsync
    &&& m.nbd_uri == s.nbd_uri
    &&& is_network_of(m.network, s.network_fd, random)
    &&& are_shares_of(m.shares@, s.mounts@)
    &&& m.devices@ == fixed_device_list()
}

/// A machine is what its settings say: so many processors, so much memory, the disk and
/// the kernel that were named, and a quiet kernel unless more was asked for.
pub proof fn law_machines_follow_their_settings(m: Machine, s: VmSettings, random: Seq<u8>)
    requires
        is_machine_of(m, s, random),
    ensures
        s.kernel == Some(m.kernel),
        s.rootfs == Some(m.rootfs),
        s.initrd == m.initrd,
        s.nbd_uri == m.nbd_uri,
        m.cpus == s.cpus,
        m.memory_bytes == s.memory_mb * 1048576,
        s.verbose ==> m.command_line@ == "console=hvc0 root=/dev/vda rw"@,
        !s.verbose ==> m.command_line@ == "console=hvc0 root=/dev/vda rw quiet"@,
        m.serial == Serial::Terminal <==> s.console,
        m.serial == Serial::Stderr <==> !s.console && s.verbose,
        m.serial == Serial::Discard <==> !s.console && !s.verbose,
        m.disk == (DiskOptions {
            read_only: false,
            caching: DiskCaching::Cached,
            sync: DiskSync::Fsync,
        }),
        m.devices@ == seq![Device::Socket, Device::Entropy, Device::MemoryBalloon],
        m.shares@.len() == s.mounts@.len(),
        forall|i: int|
            0 <= i < m.shares@.len() ==> (#[trigger] m.shares@[i]).host_path
                == s.mounts@[i].host_path && m.shares@[i].read_only == s.mounts@[i].read_only,
{
}

/// A machine has a network device exactly where it was given a socket: the device is on
/// that socket, for IP packets of up to 1500 bytes, and its address is local and made of
/// the random bytes.
pub proof fn law_network_devices_need_a_socket(m: Machine, s: VmSettings, random: Seq<u8>, i: int)
    requires
        is_machine_of(m, s, random),
        random.len() == 6,
        1 <= i < 6,
    ensures
        m.network is Some <==> s.network_fd is Some,
        s.network_fd matches Some(fd) ==> (m.network matches Some(d) && (
        d.attachment() matches Some(a) && a.fd() == fd && a.mtu() == 1500) && d.mac().len() == 6
            && d.mac()[i] == random[i] && d.mac()[0] & 0x03 == 0x02 && d.mac()[0] & 0xfc
            == random[0] & 0xfc),
{
    law_local_address(random);
    law_local_address_is_random(random, i);
}

/// Every directory that is to be mounted is shared with the guest, from the host's path
/// and as writable as it was asked for, and the guest is asked to mount it where it
/// belongs, under the tag of its share.
pub proof fn law_mounts_are_shared_and_asked_for(
    shares: Seq<Share>,
    requests: Seq<MountRequest>,
    mounts: Seq<MountConfig>,
    i: int,
)
    requires
        are_shares_of(shares, mounts),
        are_requests_of(requests, mounts),
        0 <= i < mounts.len(),
    ensures
        shares.len() == mounts.len(),
        requests.len() == mounts.len(),
        shares[i].tag@ == "mount"@ + decimal_text(i as nat),
        shares[i].tag@ == requests[i].tag@,
        shares[i].host_path == mounts[i].host_path,
        shares[i].read_only == mounts[i].read_only,
        requests[i].guest_path == mounts[i].guest_path,
        requests[i].read_only == mounts[i].read_only,
{
    assert(shares[i].tag@ == mount_tag(i as nat));
    assert(requests[i].tag@ == mount_tag(i as nat));
}

/// Whether these are the settings of a builder that was told nothing.
pub open spec fn are_defaults(s: VmSettings) -> bool {
    &&& s.kernel is None
    &&& s.rootfs is None
    &&& s.initrd is None
    &&& s.cpus == 2
    &&& s.memory_mb == 2048
    &&& s.console
    &&& !s.verbose
    &&& s.network_fd is None
    &&& s.nbd_uri is None
    &&& s.mounts@.len() == 0
}

/// Collects what a virtual machine is to be made of.
pub struct VmConfigBuilder {
    settings: VmSettings,
}

impl VmConfigBuilder {
    /// What this builder was told.
    pub closed spec fn settings(self) -> VmSettings {
        self.settings
    }

    /// A builder that was told nothing yet.
    pub fn new() -> (r: Self)
        ensures
            are_defaults(r.settings()),
    {
        VmConfigBuilder {
            settings: VmSettings {
                kernel: None,
                rootfs: None,
                initrd: None,
                cpus: 2,
                memory_mb: 2048,
                console: true,
                verbose: false,
                network_fd: None,
                nbd_uri: None,
                mounts: Vec::new(),
            },
        }
    }

    /// When false, serial console stdin is disconnected and stdout goes to
    /// stderr. This prevents the serial console from consuming host stdin
    /// in exec/shell mode.
    pub fn console(self, enabled: bool) -> (r: Self)
        ensures
            r.settings() == (VmSettings { console: enabled, ..self.settings() }),
    {
        VmConfigBuilder { settings: VmSettings { console: enabled, ..self.settings } }
    }

    /// When true, serial console output (kernel dmesg, initramfs) is shown
    /// even in non-console mode. Default is false (quiet).
    pub fn verbose(self, enabled: bool) -> (r: Self)
        ensures
            r.settings() == (VmSettings { verbose: enabled, ..self.settings() }),
    {
        VmConfigBuilder { settings: VmSettings { verbose: enabled, ..self.settings } }
    }

    /// Sets the kernel image.
    pub fn kernel(self, path: &str) -> (r: Self)
        ensures
            r.settings().kernel matches Some(p) && p@ == path@,
            r.settings() == (VmSettings { kernel: r.settings().kernel, ..self.settings() }),
    {
        VmConfigBuilder { settings: VmSettings { kernel: Some(path.to_owned()), ..self.settings } }
    }

    /// Sets the image of the root file system.
    pub fn rootfs(self, path: &str) -> (r: Self)
        ensures
            r.settings().rootfs matches Some(p) && p@ == path@,
            r.settings() == (VmSettings { rootfs: r.settings().rootfs, ..self.settings() }),
    {
        VmConfigBuilder { settings: VmSettings { rootfs: Some(path.to_owned()), ..self.settings } }
    }

    /// Sets the initial RAM file system.
    pub fn initrd(self, path: &str) -> (r: Self)
        ensures
            r.settings().initrd matches Some(p) && p@ == path@,
            r.settings() == (VmSettings { initrd: r.settings().initrd, ..self.settings() }),
    {
        VmConfigBuilder { settings: VmSettings { initrd: Some(path.to_owned()), ..self.settings } }
    }

    /// Sets the number of processors.
    pub fn cpus(self, n: usize) -> (r: Self)
        ensures
            r.settings() == (VmSettings { cpus: n, ..self.settings() }),
    {
        VmConfigBuilder { settings: VmSettings { cpus: n, ..self.settings } }
    }

    /// Sets the size of the memory, in MiB.
    pub fn memory_mb(self, mb: u64) -> (r: Self)
        ensures
            r.settings() == (VmSettings { memory_mb: mb, ..self.settings() }),
    {
        VmConfigBuilder { settings: VmSettings { memory_mb: mb, ..self.settings } }
    }

    /// Attach a network device via a socketpair fd for proxy-based networking.
    pub fn network_fd(self, fd: i32) -> (r: Self)
        ensures
            r.settings() == (VmSettings { network_fd: Some(fd), ..self.settings() }),
    {
        VmConfigBuilder { settings: VmSettings { network_fd: Some(fd), ..self.settings } }
    }

    /// Takes the disk from a block device server.
    pub fn nbd_uri(self, uri: &str) -> (r: Self)
        ensures
            r.settings().nbd_uri matches Some(u) && u@ == uri@,
            r.settings() == (VmSettings { nbd_uri: r.settings().nbd_uri, ..self.settings() }),
    {
        VmConfigBuilder { settings: VmSettings { nbd_uri: Some(uri.to_owned()), ..self.settings } }
    }

    /// Add a host directory mount (virtio-fs).
    pub fn mount(self, config: MountConfig) -> (r: Self)
        ensures
            r.settings().mounts@ == self.settings().mounts@.push(config),
            r.settings() == (VmSettings { mounts: r.settings().mounts, ..self.settings() }),
    {
        let mut settings = self.settings;
        settings.mounts.push(config);
        VmConfigBuilder { settings }
    }

    /// The machine that the builder describes, and the sandbox that will talk to
    /// it. `supported` says whether this host can run machines, and `random` makes
    /// the hardware address of the network device.
    pub fn build(self, supported: bool, random: [u8; 6]) -> (r: Result<
        (Machine, Sandbox),
        SandboxError,
    >)
        requires
            self.settings().kernel is Some && self.settings().rootfs is Some && supported
                ==> self.settings().memory_mb * 0x10_0000 <= u64::MAX,
        ensures
            if self.settings().kernel is None {
                r == Err::<(Machine, Sandbox), _>(SandboxError::KernelMissing)
            } else if self.settings().rootfs is None {
                r == Err::<(Machine, Sandbox), _>(SandboxError::RootfsMissing)
            } else if !supported {
                r == Err::<(Machine, Sandbox), _>(SandboxError::Unsupported)
            } else {
                r matches Ok((machine, sandbox)) && is_machine_of(
                    machine,
                    self.settings(),
                    random@,
                ) && are_requests_of(sandbox.pending(), self.settings().mounts@)
            },
    {
        let s = self.settings;
        let kernel = match s.kernel {
            Some(path) => path,
            None => return Err(SandboxError::KernelMissing),
        };
        let rootfs = match s.rootfs {
            Some(path) => path,
            None => return Err(SandboxError::RootfsMissing),
        };
        if !supported {
            return Err(SandboxError::Unsupported);
        }
        let command_line = if s.verbose {
            "console=hvc0 root=/dev/vda rw"
        } else {
            "console=hvc0 root=/dev/vda rw quiet"
        };
        let serial = if s.console {
            Serial::Terminal
        } else if s.verbose {
            Serial::Stderr
        } else {
            Serial::Discard
        };
        let network = match s.network_fd {
            Some(fd) => {
                let attachment = FileHandleNetworkAttachment::new(fd, NETWORK_MTU);
                let mut device = VirtioNetworkDevice::new_with_attachment(&attachment);
                device.set_mac_address(&MACAddress::random_local(random));
                Some(device)
            },
            None => None,
        };
        let mut shares: Vec<Share> = Vec::new();
        let mut requests: Vec<MountRequest> = Vec::new();
        let mut i: usize = 0;
        while i < s.mounts.len()
            invariant
                i <= s.mounts@.len(),
                are_shares_of(shares@, s.mounts@.take(i as int)),
                are_requests_of(requests@, s.mounts@.take(i as int)),
            decreases s.mounts@.len() - i,
        {
            let mount = &s.mounts[i];
            let tag = cat("mount", decimal(i as u64).as_str());
            shares.push(
                Share {
                    tag: tag.clone(),
                    host_path: mount.host_path.clone(),
                    read_only: mount.read_only,
                },
            );
            requests.push(
                MountRequest {
                    tag,
                    guest_path: mount.guest_path.clone(),
                    read_only: mount.read_only,
                },
            );
            i += 1;
        }
        assert(s.mounts@.take(i as int) =~= s.mounts@);
        let machine = Machine {
            kernel,
            initrd: s.initrd,
            command_line: command_line.to_owned(),
            cpus: s.cpus,
            memory_bytes: s.memory_mb * 0x10_0000,
            serial,
            rootfs,
            disk: disk_options(),
            nbd_uri: s.nbd_uri,
            network,
            shares,
            devices: fixed_devices(),
        };
        Ok((machine, Sandbox::new(requests)))
    }
}

/// A builder that was told nothing describes a machine with two processors, 2048 MB and a
/// serial console, and with neither images nor a network nor directories.
pub proof fn law_defaults(s: VmSettings)
    ensures
        are_defaults(s) <==> s.kernel is None && s.rootfs is None && s.initrd is None && s.cpus == 2
            && s.memory_mb == 2048 && s.console && !s.verbose && s.network_fd is None
            && s.nbd_uri is None && s.mounts@.len() == 0,
{
}

} // verus!
