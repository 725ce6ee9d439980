use shuru::config::{ProxyConfig, SecretConfig};
use shuru::flags::MountError;
use shuru::guest::PortMapping;
use shuru::kulfi::{ExposesError, KulfiProtocol};
use shuru::string_map::StringMap;
use shuru::vm::{
    plan_vm, resolve_command, Cwd, ExposeHost, HostFacts, PrepareError, ShuruConfig, VmArgs,
};

fn args() -> VmArgs {
    VmArgs {
        cpus: None,
        memory: None,
        disk_size: None,
        kernel: None,
        rootfs: None,
        initrd: None,
        allow_net: false,
        allow_host_writes: false,
        port: vec![],
        mount: vec![],
        secret: vec![],
        allow_host: vec![],
        expose_host: vec![],
        kulfi: vec![],
        kulfi_bridge_domain: "kulfi.site".to_string(),
        verbose: false,
    }
}

fn config() -> ShuruConfig {
    ShuruConfig {
        cpus: None,
        memory: None,
        disk_size: None,
        allow_net: None,
        allow_host_writes: None,
        ports: None,
        mounts: None,
        command: None,
    }
}

fn host() -> HostFacts {
    let mut env = StringMap::new();
    env.insert("OPENAI_API_KEY".to_string(), "sk-real".to_string());
    let mut canonical = StringMap::new();
    canonical.insert("./src".to_string(), "/work/src".to_string());
    canonical.insert("/tmp".to_string(), "/tmp".to_string());
    HostFacts { env, canonical, cwd: Cwd::Path { path: "/work".to_string() } }
}

fn strings(v: Vec<&str>) -> Vec<String> {
    v.into_iter().map(|s| s.to_string()).collect()
}

fn message(vm: &VmArgs, cfg: &ShuruConfig) -> String {
    plan_vm(vm, cfg, ProxyConfig::default(), &host()).err().unwrap().to_string()
}

#[test]
fn flags_win_over_the_configuration() {
    let plan = plan_vm(&args(), &config(), ProxyConfig::default(), &host()).ok().unwrap();
    assert_eq!((plan.cpus, plan.memory, plan.disk_size), (2, 2048, 4096));
    let mut cfg = config();
    cfg.cpus = Some(3);
    cfg.memory = Some(100);
    cfg.disk_size = Some(200);
    let mut vm = args();
    vm.cpus = Some(4);
    let plan = plan_vm(&vm, &cfg, ProxyConfig::default(), &host()).ok().unwrap();
    assert_eq!((plan.cpus, plan.memory, plan.disk_size), (4, 100, 200));
    assert_eq!(plan.bridge_domain, "kulfi.site");
}

#[test]
fn there_is_no_proxy_without_the_network() {
    let mut vm = args();
    vm.secret = strings(vec!["not a secret"]);
    let plan = plan_vm(&vm, &config(), ProxyConfig::default(), &host()).ok().unwrap();
    assert!(plan.proxy.is_none());
    let mut cfg = config();
    cfg.allow_net = Some(true);
    let plan = plan_vm(&args(), &cfg, ProxyConfig::default(), &host()).ok().unwrap();
    assert!(plan.proxy.is_some());
}

#[test]
fn secrets_and_hosts_are_merged() {
    let mut proxy = ProxyConfig::default();
    proxy.secrets.insert(
        "API_KEY".to_string(),
        SecretConfig { value: "old".to_string(), hosts: vec![] },
    );
    proxy.secrets.insert(
        "OTHER".to_string(),
        SecretConfig { value: "kept".to_string(), hosts: vec![] },
    );
    proxy.network.allow.push("a.com".to_string());
    let mut vm = args();
    vm.allow_net = true;
    vm.secret = strings(vec!["API_KEY=OPENAI_API_KEY@api.openai.com, x.com", "N=UNSET@n.com"]);
    vm.allow_host = strings(vec!["b.com"]);
    vm.expose_host = vec![ExposeHost {
        flag: "1:2".to_string(),
        mapping: Some(PortMapping { host_port: 1, guest_port: 2 }),
    }];
    let p = plan_vm(&vm, &config(), proxy, &host()).ok().unwrap().proxy.unwrap();
    assert_eq!(p.secrets.len(), 3);
    assert_eq!(p.secrets.get("API_KEY").unwrap().value, "sk-real");
    assert_eq!(p.secrets.get("API_KEY").unwrap().hosts, strings(vec!["api.openai.com", "x.com"]));
    assert_eq!(p.secrets.get("OTHER").unwrap().value, "kept");
    assert_eq!(p.secrets.get("N").unwrap().value, "");
    assert_eq!(p.network.allow, strings(vec!["a.com", "b.com"]));
    assert_eq!(p.expose_host, vec![PortMapping { host_port: 1, guest_port: 2 }]);
}

#[test]
fn ports_are_merged_and_not_replaced() {
    let mut vm = args();
    vm.port = strings(vec!["8080:80"]);
    vm.kulfi = strings(vec!["8080:http", "9090:tcp:1234"]);
    let mut cfg = config();
    cfg.ports = Some(strings(vec!["9090:90"]));
    let plan = plan_vm(&vm, &cfg, ProxyConfig::default(), &host()).ok().unwrap();
    assert_eq!(
        plan.forwards,
        vec![
            PortMapping { host_port: 8080, guest_port: 80 },
            PortMapping { host_port: 9090, guest_port: 90 },
        ]
    );
    assert_eq!(plan.exposes[0].protocol, KulfiProtocol::Http);
    assert_eq!(plan.exposes[1].bridge_port, Some(1234));
}

#[test]
fn mounts_are_merged_and_checked() {
    let mut vm = args();
    vm.mount = strings(vec!["./src:/a"]);
    let mut cfg = config();
    cfg.mounts = Some(strings(vec!["./src:/b:rw"]));
    assert!(message(&vm, &cfg).contains("--allow-host-writes"));
    cfg.allow_host_writes = Some(true);
    let plan = plan_vm(&vm, &cfg, ProxyConfig::default(), &host()).ok().unwrap();
    assert_eq!(plan.mounts.len(), 2);
    assert_eq!(plan.mounts[0].host_path, "/work/src");
    assert!(plan.mounts[0].read_only);
    assert_eq!(plan.mounts[1].guest_path, "/b");
    assert!(!plan.mounts[1].read_only);
    vm.mount = strings(vec!["/tmp:/a"]);
    assert!(message(&vm, &cfg).contains("outside the current working directory"));
}

#[test]
fn the_working_directory_matters_for_mounts_only() {
    let mut facts = host();
    facts.cwd = Cwd::Unknown;
    assert!(plan_vm(&args(), &config(), ProxyConfig::default(), &facts).is_ok());
    let mut vm = args();
    vm.mount = strings(vec!["./src:/a"]);
    let err = plan_vm(&vm, &config(), ProxyConfig::default(), &facts).err().unwrap();
    assert!(matches!(err, PrepareError::Mounts { mount_error: MountError::NoCwd }));
    facts.cwd = Cwd::Unresolved;
    let err = plan_vm(&vm, &config(), ProxyConfig::default(), &facts).err().unwrap();
    assert!(matches!(err, PrepareError::Mounts { mount_error: MountError::UnresolvedCwd }));
}

#[test]
fn wrong_flags_are_named() {
    let mut vm = args();
    vm.allow_net = true;
    vm.secret = strings(vec!["A=B@c", "A"]);
    assert_eq!(
        message(&vm, &config()),
        "invalid --secret: 'A' (expected NAME=ENV@host1,host2)"
    );
    let mut vm = args();
    vm.allow_net = true;
    vm.expose_host = vec![ExposeHost { flag: "x".to_string(), mapping: None }];
    assert_eq!(message(&vm, &config()), "invalid --expose-host: 'x'");
    let mut vm = args();
    vm.port = strings(vec!["1:2", "x"]);
    assert_eq!(message(&vm, &config()), "invalid port mapping: 'x'");
    let mut vm = args();
    vm.kulfi = strings(vec!["1:udp"]);
    assert_eq!(message(&vm, &config()), "invalid --kulfi mapping: '1:udp'");
    let mut vm = args();
    vm.kulfi = strings(vec!["1:tcp"]);
    let err = plan_vm(&vm, &config(), ProxyConfig::default(), &host()).err().unwrap();
    assert!(matches!(
        err,
        PrepareError::Exposes { error: ExposesError::NoForward { port: 1, .. } }
    ));
    assert_eq!(err.cause(), None);
    let mut vm = args();
    vm.mount = strings(vec!["./gone:/a"]);
    assert_eq!(message(&vm, &config()), "invalid mount spec: './gone:/a'");
}

#[test]
fn errors_have_causes() {
    let mut vm = args();
    vm.port = strings(vec!["x:1"]);
    let err = plan_vm(&vm, &config(), ProxyConfig::default(), &host()).err().unwrap();
    assert_eq!(err.cause(), Some("invalid host port: 'x'".to_string()));
    let mut vm = args();
    vm.mount = strings(vec!["./gone:/a"]);
    let err = plan_vm(&vm, &config(), ProxyConfig::default(), &host()).err().unwrap();
    assert_eq!(err.cause(), Some("host path does not exist: './gone'".to_string()));
    let mut vm = args();
    vm.kulfi = strings(vec!["1:udp"]);
    let err = plan_vm(&vm, &config(), ProxyConfig::default(), &host()).err().unwrap();
    assert_eq!(
        err.cause(),
        Some("invalid protocol 'udp': expected 'http' or 'tcp'".to_string())
    );
}

#[test]
fn a_command_is_found() {
    assert_eq!(
        resolve_command(strings(vec!["ls"]), Some(strings(vec!["top"]))),
        strings(vec!["ls"])
    );
    assert_eq!(resolve_command(vec![], Some(strings(vec!["top"]))), strings(vec!["top"]));
    assert_eq!(resolve_command(vec![], None), strings(vec!["/bin/sh"]));
}
