use shuru::config::{ProxyConfig, SecretConfig};
use shuru::guest::PortMapping;
use shuru::kulfi::{KulfiExpose, KulfiProtocol};
use shuru::machine::MountConfig;
use shuru::run::{
    boot_notice, build_sandbox, checkpoint_path, checkpoints_dir, choose_source, console_step,
    file_notices, grow_disk, guest_env, image_paths, initrd_warning, instance_owner,
    instance_paths, needs_copy, needs_download, opening_notices, prepare_vm, prune_notice,
    run_mode, stage_notice, stages, start_nbd, trust_steps, ConsoleStep, ImagePaths, PreparedVm,
    RunMode, Source, SourceFacts, Stage,
};
use shuru::sandbox::VmState;
use shuru::string_map::StringMap;
use shuru::vm::{VmArgs, VmPlan};

fn prepared() -> PreparedVm {
    PreparedVm {
        instance_dir: "/d/instances/7".to_string(),
        source_rootfs: "/d/rootfs.ext4".to_string(),
        work_rootfs: "/d/instances/7/rootfs.ext4".to_string(),
        cas_index: None,
        kernel_path: "/d/Image".to_string(),
        initrd_path: Some("/d/initramfs.cpio.gz".to_string()),
        cpus: 2,
        memory: 2048,
        disk_size: 4096,
        proxy_config: None,
        verbose: false,
        forwards: vec![],
        kulfi_exposes: vec![],
        kulfi_bridge_domain: "kulfi.site".to_string(),
        mounts: vec![],
    }
}

fn args() -> VmArgs {
    VmArgs {
        cpus: None,
        memory: None,
        disk_size: None,
        kernel: None,
        rootfs: Some("/my/rootfs".to_string()),
        initrd: None,
        allow_net: false,
        allow_host_writes: false,
        port: vec![],
        mount: vec![],
        secret: vec![],
        allow_host: vec![],
        expose_host: vec![],
        kulfi: vec![],
        kulfi_bridge_domain: "kulfi.site".to_string(),
        verbose: false,
    }
}

fn images() -> ImagePaths {
    ImagePaths { kernel: "/k".to_string(), rootfs: "/r".to_string(), initrd: "/i".to_string() }
}

fn facts() -> SourceFacts {
    SourceFacts {
        kernel_exists: true,
        rootfs_exists: true,
        name_error: None,
        index_exists: true,
        image_exists: true,
    }
}

#[test]
fn images_come_from_flags_or_the_data_directory() {
    let paths = image_paths(&args(), "/d");
    assert_eq!(paths.kernel, "/d/Image");
    assert_eq!(paths.rootfs, "/my/rootfs");
    assert_eq!(paths.initrd, "/d/initramfs.cpio.gz");
    assert!(!needs_download(&args(), false));
    let mut vm = args();
    vm.rootfs = None;
    assert!(needs_download(&vm, false));
    assert!(!needs_download(&vm, true));
    assert_eq!(image_paths(&vm, "/d").rootfs, "/d/rootfs.ext4");
}

#[test]
fn a_disk_starts_as_a_checkpoint_or_the_base_image() {
    let source = choose_source(&images(), "/d", None, facts()).ok().unwrap();
    assert_eq!(source.path, "/r");
    assert!(needs_copy(&source));
    let source = choose_source(&images(), "/d", Some("py"), facts()).ok().unwrap();
    assert_eq!(source.path, "/d/checkpoints/py.idx");
    assert_eq!(source.cas_index, Some("/d/checkpoints/py.idx".to_string()));
    assert!(!needs_copy(&source));
    let mut f = facts();
    f.index_exists = false;
    let source = choose_source(&images(), "/d", Some("py"), f).ok().unwrap();
    assert_eq!(source.path, "/d/checkpoints/py.ext4");
    assert_eq!(source.cas_index, None);
    assert_eq!(checkpoints_dir("/d"), "/d/checkpoints");
    assert_eq!(checkpoint_path("/d", "x", false), "/d/checkpoints/x.ext4");
}

#[test]
fn missing_files_are_named() {
    let mut f = facts();
    f.kernel_exists = false;
    assert_eq!(
        choose_source(&images(), "/d", None, f).err().unwrap().to_string(),
        "Kernel not found at /k. Run `shuru init` to download."
    );
    let mut f = facts();
    f.rootfs_exists = false;
    assert_eq!(
        choose_source(&images(), "/d", None, f).err().unwrap().to_string(),
        "Rootfs not found at /r. Run `shuru init` to download."
    );
    let mut f = facts();
    f.index_exists = false;
    f.image_exists = false;
    assert_eq!(
        choose_source(&images(), "/d", Some("py"), f).err().unwrap().to_string(),
        "Checkpoint 'py' not found"
    );
    let mut f = facts();
    f.name_error = Some("bad name".to_string());
    assert_eq!(
        choose_source(&images(), "/d", Some("../x"), f).err().unwrap().to_string(),
        "bad name"
    );
    assert_eq!(
        initrd_warning("/i"),
        "shuru: warning: initramfs not found at /i, booting without it"
    );
}

#[test]
fn a_disk_grows_and_never_shrinks() {
    let mib = 1024 * 1024;
    assert_eq!(grow_disk(4, 3 * mib).ok().unwrap(), Some(4 * mib));
    assert_eq!(grow_disk(4, 4 * mib).ok().unwrap(), None);
    assert_eq!(
        grow_disk(4, 4 * mib + 1).err().unwrap().to_string(),
        "--disk-size 4MB is smaller than the base image (4MB)"
    );
}

#[test]
fn a_run_is_put_together() {
    let plan = VmPlan {
        cpus: 1,
        memory: 2,
        disk_size: 3,
        verbose: true,
        proxy: None,
        forwards: vec![],
        exposes: vec![],
        bridge_domain: "b".to_string(),
        mounts: vec![],
    };
    let source = Source { path: "/s".to_string(), cas_index: None };
    let instance = instance_paths("/d", 42);
    assert_eq!(instance.dir, "/d/instances/42");
    assert_eq!(instance.work_rootfs, "/d/instances/42/rootfs.ext4");
    let p = prepare_vm(plan, images(), source, instance, false);
    assert_eq!(p.initrd_path, None);
    assert_eq!(p.kernel_path, "/k");
    assert_eq!(p.source_rootfs, "/s");
    assert_eq!((p.cpus, p.memory, p.disk_size), (1, 2, 3));
    assert!(p.verbose);
}

#[test]
fn a_sandbox_is_built_for_a_run() {
    let mut p = prepared();
    p.mounts.push(MountConfig {
        host_path: "/w".to_string(),
        guest_path: "/g".to_string(),
        read_only: false,
    });
    let (machine, _) = build_sandbox(&p, false, Some(5), Some("nbd+unix:///s"), true, [1; 6])
        .ok()
        .unwrap();
    assert_eq!(machine.kernel, "/d/Image");
    assert_eq!(machine.rootfs, "/d/instances/7/rootfs.ext4");
    assert_eq!(machine.initrd, Some("/d/initramfs.cpio.gz".to_string()));
    assert_eq!(machine.nbd_uri, Some("nbd+unix:///s".to_string()));
    assert_eq!(machine.network.unwrap().fd(), Some(5));
    assert_eq!(machine.shares[0].host_path, "/w");
    let (machine, _) = build_sandbox(&p, true, None, None, true, [1; 6]).ok().unwrap();
    assert!(machine.network.is_none());
    assert!(machine.nbd_uri.is_none());
    assert!(build_sandbox(&p, true, None, None, false, [1; 6]).is_err());
}

#[test]
fn the_block_device_server_is_planned() {
    assert!(start_nbd(&prepared(), "/d", "direct").is_none());
    let plan = start_nbd(&prepared(), "/d", "").unwrap();
    assert_eq!(plan.source, "/d/rootfs.ext4");
    assert_eq!(plan.cas_dir, "/d/cas");
    assert_eq!(plan.socket_path, "/d/instances/7/nbd.sock");
    assert_eq!(plan.target_size, 4096 * 1024 * 1024);
    let digest = blake3::hash(b"/d/rootfs.ext4").to_hex().to_string();
    assert_eq!(plan.index_path, format!("/d/cas/indexes/{}.idx", &digest[..16]));
    let mut p = prepared();
    p.cas_index = Some("/d/checkpoints/py.idx".to_string());
    assert_eq!(start_nbd(&p, "/d", "cas").unwrap().index_path, "/d/checkpoints/py.idx");
}

#[test]
fn notices_are_given() {
    let p = prepared();
    assert_eq!(boot_notice(&p), "shuru: booting VM (2cpus, 2048MB RAM, 4096MB disk)...");
    let (kernel, rootfs) = file_notices(&p);
    assert_eq!(kernel, "shuru: kernel=/d/Image");
    assert_eq!(rootfs, "shuru: rootfs=/d/instances/7/rootfs.ext4 (work copy)");
    let command = RunMode::Command { terminal: false };
    let boot = boot_notice(&p);
    assert_eq!(opening_notices(&p, RunMode::Stdio), Vec::<String>::new());
    assert_eq!(
        opening_notices(&p, RunMode::Console),
        vec![kernel.clone(), rootfs.clone(), boot.clone()]
    );
    let mut quiet = prepared();
    quiet.verbose = false;
    assert_eq!(opening_notices(&quiet, command), vec![boot.clone()]);
    let mut verbose = prepared();
    verbose.verbose = true;
    assert_eq!(opening_notices(&verbose, command), vec![kernel, rootfs, boot]);
    assert_eq!(opening_notices(&verbose, RunMode::Stdio), Vec::<String>::new());
    assert_eq!(prune_notice(0), "shuru: no orphaned instances found");
    assert_eq!(prune_notice(3), "shuru: removed 3 orphaned instance(s)");
    let command = RunMode::Command { terminal: true };
    assert_eq!(
        stage_notice(Stage::Boot, command, true),
        Some("shuru: VM started, waiting for guest...".to_string())
    );
    assert_eq!(stage_notice(Stage::Boot, command, false), None);
    assert_eq!(
        stage_notice(Stage::Boot, RunMode::Console, false),
        Some("shuru: VM started".to_string())
    );
    assert_eq!(stage_notice(Stage::Boot, RunMode::Stdio, true), None);
}

#[test]
fn the_guest_sees_placeholders() {
    let mut placeholders = StringMap::new();
    assert!(trust_steps(&placeholders).is_none());
    placeholders.insert("KEY".to_string(), "shuru_tok_1".to_string());
    let steps = trust_steps(&placeholders).unwrap();
    assert_eq!(steps.path, "/usr/local/share/ca-certificates/shuru-proxy.crt");
    assert_eq!(steps.argv, vec!["update-ca-certificates".to_string(), "--fresh".to_string()]);
    assert_eq!(guest_env(&placeholders).get("KEY").unwrap(), "shuru_tok_1");
}

#[test]
fn a_console_waits_for_the_machine() {
    assert!(matches!(console_step(Some(VmState::Other)), ConsoleStep::Continue));
    match console_step(Some(VmState::Stopped)) {
        ConsoleStep::Exit { message, code } => {
            assert_eq!(message, Some("shuru: VM stopped".to_string()));
            assert_eq!(code, 0);
        }
        ConsoleStep::Continue => panic!("it stopped"),
    }
    match console_step(Some(VmState::Error)) {
        ConsoleStep::Exit { message, code } => {
            assert_eq!(message, Some("shuru: VM encountered an error".to_string()));
            assert_eq!(code, 1);
        }
        ConsoleStep::Continue => panic!("it failed"),
    }
    assert!(matches!(console_step(None), ConsoleStep::Exit { message: None, code: 0 }));
}

#[test]
fn leftovers_are_named_by_their_process() {
    assert_eq!(instance_owner("123"), Some(123));
    assert_eq!(instance_owner("-5"), Some(-5));
    assert_eq!(instance_owner("2147483648"), None);
    assert_eq!(instance_owner("12a"), None);
    assert_eq!(instance_owner(""), None);
}

#[test]
fn a_run_has_stages() {
    assert_eq!(run_mode(true, true, true), RunMode::Stdio);
    assert_eq!(run_mode(false, true, true), RunMode::Console);
    assert_eq!(run_mode(false, false, false), RunMode::Command { terminal: false });
    let plain = prepared();
    assert_eq!(
        stages(&plain, RunMode::Command { terminal: false }),
        vec![Stage::Nbd, Stage::Build, Stage::Boot, Stage::Exec, Stage::Stop]
    );
    assert_eq!(
        stages(&plain, RunMode::Console),
        vec![Stage::Build, Stage::Boot, Stage::Console]
    );
    let mut full = prepared();
    let mut proxy = ProxyConfig::default();
    proxy.secrets.insert("K".to_string(), SecretConfig { value: "v".to_string(), hosts: vec![] });
    full.proxy_config = Some(proxy);
    full.forwards.push(PortMapping { host_port: 1, guest_port: 1 });
    full.kulfi_exposes.push(KulfiExpose {
        host_port: 1,
        protocol: KulfiProtocol::Http,
        bridge_port: None,
    });
    assert_eq!(
        stages(&full, RunMode::Command { terminal: true }),
        vec![
            Stage::Proxy,
            Stage::Nbd,
            Stage::Build,
            Stage::Boot,
            Stage::Forward,
            Stage::Tunnels,
            Stage::Trust,
            Stage::Shell,
            Stage::Stop
        ]
    );
    assert_eq!(
        stages(&full, RunMode::Stdio),
        vec![
            Stage::Proxy,
            Stage::Build,
            Stage::Boot,
            Stage::Trust,
            Stage::Forward,
            Stage::Serve
        ]
    );
}
