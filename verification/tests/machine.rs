use shuru::guest::SandboxError;
use shuru::machine::{
    disk_options, fixed_devices, Device, DiskCaching, DiskOptions, DiskSync, MountConfig, Serial,
};
use shuru::network::{FileHandleNetworkAttachment, MACAddress, VirtioNetworkDevice, NETWORK_MTU};
use shuru::sandbox::{Outgoing, Sandbox};

fn mount(host: &str, guest: &str, read_only: bool) -> MountConfig {
    MountConfig { host_path: host.to_string(), guest_path: guest.to_string(), read_only }
}

#[test]
fn a_machine_is_what_the_builder_was_told() {
    let (machine, mut sandbox) = Sandbox::builder()
        .kernel("/k")
        .rootfs("/r")
        .initrd("/i")
        .cpus(4)
        .memory_mb(1024)
        .console(false)
        .verbose(true)
        .network_fd(7)
        .nbd_uri("nbd://x")
        .mount(mount("/a", "/x", true))
        .mount(mount("/b", "/y", false))
        .build(true, [0xff, 1, 2, 3, 4, 5])
        .ok()
        .unwrap();
    assert_eq!(machine.kernel, "/k");
    assert_eq!(machine.rootfs, "/r");
    assert_eq!(machine.initrd, Some("/i".to_string()));
    assert_eq!(machine.command_line, "console=hvc0 root=/dev/vda rw");
    assert_eq!(machine.cpus, 4);
    assert_eq!(machine.memory_bytes, 1024 * 1024 * 1024);
    assert_eq!(machine.serial, Serial::Stderr);
    assert_eq!(machine.nbd_uri, Some("nbd://x".to_string()));
    let disk =
        DiskOptions { read_only: false, caching: DiskCaching::Cached, sync: DiskSync::Fsync };
    assert_eq!(machine.disk, disk);
    assert_eq!(disk_options(), disk);
    let devices = vec![Device::Socket, Device::Entropy, Device::MemoryBalloon];
    assert_eq!(machine.devices, devices);
    assert_eq!(fixed_devices(), devices);
    let network = machine.network.unwrap();
    assert_eq!(network.fd(), Some(7));
    assert_eq!(network.mac_bytes(), [0xfe, 1, 2, 3, 4, 5]);
    assert_eq!(machine.shares.len(), 2);
    assert_eq!(machine.shares[0].tag, "mount0");
    assert_eq!(machine.shares[0].host_path, "/a");
    assert!(machine.shares[0].read_only);
    assert_eq!(machine.shares[1].tag, "mount1");
    assert!(!machine.shares[1].read_only);
    let conversation = sandbox.read_file("/f");
    match conversation.next() {
        Outgoing::Mount { mount } => {
            assert_eq!(mount.tag, "mount0");
            assert_eq!(mount.guest_path, "/x");
            assert!(mount.read_only);
        }
        Outgoing::Request { .. } => panic!("a mount comes first"),
    }
}

#[test]
fn a_builder_has_defaults() {
    let (machine, _) = Sandbox::builder().kernel("/k").rootfs("/r").build(true, [0; 6]).ok().unwrap();
    assert_eq!(machine.cpus, 2);
    assert_eq!(machine.memory_bytes, 2048 * 1024 * 1024);
    assert_eq!(machine.serial, Serial::Terminal);
    assert_eq!(machine.command_line, "console=hvc0 root=/dev/vda rw quiet");
    assert!(machine.network.is_none());
    assert!(machine.initrd.is_none());
    assert!(machine.nbd_uri.is_none());
    assert!(machine.shares.is_empty());
    let (machine, _) = Sandbox::builder()
        .kernel("/k")
        .rootfs("/r")
        .console(false)
        .build(true, [0; 6])
        .ok()
        .unwrap();
    assert_eq!(machine.serial, Serial::Discard);
}

#[test]
fn a_machine_needs_a_kernel_a_disk_and_support() {
    let err = Sandbox::builder().rootfs("/r").build(true, [0; 6]).err().unwrap();
    assert!(matches!(err, SandboxError::KernelMissing));
    assert_eq!(err.to_string(), "kernel path is required");
    let err = Sandbox::builder().kernel("/k").build(false, [0; 6]).err().unwrap();
    assert!(matches!(err, SandboxError::RootfsMissing));
    assert_eq!(err.to_string(), "rootfs path is required");
    let err = Sandbox::builder().kernel("/k").rootfs("/r").build(false, [0; 6]).err().unwrap();
    assert_eq!(err.to_string(), "Virtualization is not supported on this machine");
}

#[test]
fn random_addresses_are_local_and_unicast() {
    for first in [0u8, 1, 2, 3, 0x7f, 0xff] {
        let mac = MACAddress::random_local([first, 9, 8, 7, 6, 5]).bytes();
        assert_eq!(mac[0] & 0x03, 0x02);
        assert_eq!(mac[0] & 0xfc, first & 0xfc);
        assert_eq!(mac[1..], [9, 8, 7, 6, 5]);
    }
    assert_eq!(MACAddress::new().bytes(), [0; 6]);
    assert_eq!(MACAddress::default().bytes(), [0; 6]);
}

#[test]
fn a_device_keeps_what_it_is_given() {
    let mut device = VirtioNetworkDevice::new();
    assert_eq!(device.fd(), None);
    device.set_mac_address(&MACAddress::random_local([4, 1, 1, 1, 1, 1]));
    device.set_attachment(&FileHandleNetworkAttachment::new(3, NETWORK_MTU));
    assert_eq!(device.fd(), Some(3));
    assert_eq!(device.mac_bytes(), [6, 1, 1, 1, 1, 1]);
    let other = VirtioNetworkDevice::new_with_attachment(&FileHandleNetworkAttachment::new(5, 9000));
    assert_eq!(other.fd(), Some(5));
    assert_eq!(other.mac_bytes(), [0; 6]);
    assert_eq!(VirtioNetworkDevice::default().fd(), None);
}
