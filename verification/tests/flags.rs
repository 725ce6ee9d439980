use shuru::flags::{
    mount_host, parse_mount_parts, parse_mount_spec, parse_port_mapping, parse_secret_flag,
    validate_mounts_with_cwd, MountError, PortError, SecretError,
};
use shuru::guest::PortMapping;
use shuru::machine::MountConfig;

fn mount(host: &str, guest: &str, read_only: bool) -> MountConfig {
    MountConfig { host_path: host.to_string(), guest_path: guest.to_string(), read_only }
}

fn cwd() -> String {
    "/Users/testuser/project".to_string()
}

#[test]
fn mount_defaults_to_read_only() {
    let mc = parse_mount_parts("/some/host", "/workspace", None).unwrap();
    assert!(mc.read_only);
    assert_eq!(mc.guest_path, "/workspace");
}

#[test]
fn mount_ro_suffix() {
    let mc = parse_mount_parts("/some/host", "/workspace", Some("ro")).unwrap();
    assert!(mc.read_only);
}

#[test]
fn mount_rw_suffix() {
    let mc = parse_mount_parts("/some/host", "/workspace", Some("rw")).unwrap();
    assert!(!mc.read_only);
}

#[test]
fn mount_rejects_bad_mode() {
    assert!(parse_mount_parts("/some/host", "/workspace", Some("xx")).is_err());
}

#[test]
fn mount_rejects_relative_guest() {
    assert!(parse_mount_parts("/some/host", "relative/path", None).is_err());
}

#[test]
fn rw_mount_rejected_without_flag() {
    let cwd = cwd();
    let mounts = vec![mount(&cwd, "/workspace", false)];
    let err = validate_mounts_with_cwd(&mounts, false, &cwd).unwrap_err();
    assert!(err.to_string().contains("--allow-host-writes"));
}

#[test]
fn rw_mount_accepted_with_flag() {
    let cwd = cwd();
    let mounts = vec![mount(&cwd, "/workspace", false)];
    assert!(validate_mounts_with_cwd(&mounts, true, &cwd).is_ok());
}

#[test]
fn ro_mount_accepted_without_flag() {
    let cwd = cwd();
    let mounts = vec![mount(&cwd, "/workspace", true)];
    assert!(validate_mounts_with_cwd(&mounts, false, &cwd).is_ok());
}

#[test]
fn mount_outside_cwd_rejected() {
    let cwd = "/Users/testuser/project";
    let mounts = vec![mount("/tmp", "/workspace", true)];
    let err = validate_mounts_with_cwd(&mounts, false, cwd).unwrap_err();
    assert!(err.to_string().contains("outside the current working directory"));
}

#[test]
fn root_host_path_rejected() {
    let cwd = "/Users/testuser/project";
    let mounts = vec![mount("/", "/workspace", true)];
    let err = validate_mounts_with_cwd(&mounts, false, cwd).unwrap_err();
    assert!(err.to_string().contains("mounting '/'"));
}

#[test]
fn empty_mounts_passes() {
    assert!(validate_mounts_with_cwd(&vec![], false, &cwd()).is_ok());
}

#[test]
fn cwd_root_rejected() {
    let mounts = vec![mount("/usr", "/workspace", true)];
    let err = validate_mounts_with_cwd(&mounts, false, "/").unwrap_err();
    assert!(err.to_string().contains("current working directory is '/'"));
}

#[test]
fn mount_errors_have_their_messages() {
    let err = parse_mount_parts("/h", "relative/path", None).unwrap_err();
    assert_eq!(err.to_string(), "guest path must be absolute (start with /): 'relative/path'");
    let err = parse_mount_parts("/h", "/w", Some("xx")).unwrap_err();
    assert_eq!(err.to_string(), "invalid mount mode 'xx': expected 'ro' or 'rw'");
    let err = parse_mount_spec("nothing", Some("/x")).unwrap_err();
    assert_eq!(
        err.to_string(),
        "expected HOST:GUEST[:ro|rw] format (e.g. ./src:/workspace:rw)"
    );
    let err = parse_mount_spec("./gone:/w", None).unwrap_err();
    assert_eq!(err.to_string(), "host path does not exist: './gone'");
    let mounts = vec![mount("/a/b", "/w", false)];
    let err = validate_mounts_with_cwd(&mounts, false, "/a").unwrap_err();
    assert_eq!(
        err.to_string(),
        "read-write mount '/a/b:/w:rw' requires --allow-host-writes flag (or \"allow_host_writes\": true in config)."
    );
    let err = validate_mounts_with_cwd(&mounts, true, "/c").unwrap_err();
    assert_eq!(
        err.to_string(),
        "mount host path '/a/b' is outside the current working directory '/c'. Only paths within CWD can be mounted."
    );
    assert_eq!(
        MountError::NoCwd.to_string(),
        "failed to determine current working directory"
    );
    assert_eq!(
        MountError::UnresolvedCwd.to_string(),
        "failed to canonicalize current working directory"
    );
    assert_eq!(
        MountError::RootCwd.to_string(),
        "cannot use mounts when the current working directory is '/'. Change to a project directory first."
    );
    assert_eq!(
        MountError::RootHost.to_string(),
        "mounting '/' as a host path is not allowed. Mount a specific subdirectory instead."
    );
}

#[test]
fn mount_spec_takes_the_resolved_host() {
    assert_eq!(mount_host("./src:/workspace:rw"), Some("./src".to_string()));
    assert_eq!(mount_host("nothing"), None);
    let mc = parse_mount_spec("./src:/workspace:rw", Some("/home/me/src")).unwrap();
    assert_eq!(mc.host_path, "/home/me/src");
    assert_eq!(mc.guest_path, "/workspace");
    assert!(!mc.read_only);
    // Everything after the second colon is the mode.
    let err = parse_mount_spec("a:/b:c:d", Some("/a")).unwrap_err();
    assert_eq!(err.to_string(), "invalid mount mode 'c:d': expected 'ro' or 'rw'");
}

#[test]
fn the_first_wrong_mount_decides() {
    let mounts = vec![
        mount("/work/ok", "/a", true),
        mount("/work/rw", "/b", false),
        mount("/", "/c", true),
    ];
    let err = validate_mounts_with_cwd(&mounts, false, "/work").unwrap_err();
    assert!(matches!(err, MountError::HostWrites { .. }));
    let err = validate_mounts_with_cwd(&mounts, true, "/work").unwrap_err();
    assert!(matches!(err, MountError::RootHost));
}

#[test]
fn mounts_compare_paths_by_components() {
    assert!(validate_mounts_with_cwd(&vec![mount("/work//sub/./x/", "/a", true)], false, "/work/sub/").is_ok());
    assert!(validate_mounts_with_cwd(&vec![mount("/workshop", "/a", true)], false, "/work").is_err());
    assert!(validate_mounts_with_cwd(&vec![], false, "//.").is_err());
}

#[test]
fn port_mapping_is_parsed() {
    assert_eq!(
        parse_port_mapping("8080:80").unwrap(),
        PortMapping { host_port: 8080, guest_port: 80 }
    );
    assert_eq!(
        parse_port_mapping("+8080:065").unwrap(),
        PortMapping { host_port: 8080, guest_port: 65 }
    );
}

#[test]
fn port_errors_have_their_messages() {
    let err = parse_port_mapping("8080").unwrap_err();
    assert!(matches!(err, PortError::Format));
    assert_eq!(err.to_string(), "expected HOST:GUEST format (e.g. 8080:80)");
    assert_eq!(parse_port_mapping("1:2:3").unwrap_err().to_string(), err.to_string());
    let err = parse_port_mapping("65536:80").unwrap_err();
    assert_eq!(err.to_string(), "invalid host port: '65536'");
    let err = parse_port_mapping("80:-1").unwrap_err();
    assert_eq!(err.to_string(), "invalid guest port: '-1'");
    assert_eq!(parse_port_mapping("80:").unwrap_err().to_string(), "invalid guest port: ''");
}

#[test]
fn secret_flag_is_parsed() {
    let (name, from, hosts) = parse_secret_flag("API_KEY=OPENAI@api.openai.com, b.com").unwrap();
    assert_eq!(name, "API_KEY");
    assert_eq!(from, "OPENAI");
    assert_eq!(hosts, vec!["api.openai.com".to_string(), "b.com".to_string()]);
    let (_, _, hosts) = parse_secret_flag("A=B@").unwrap();
    assert_eq!(hosts, vec!["".to_string()]);
}

#[test]
fn secret_errors_have_their_messages() {
    assert_eq!(parse_secret_flag("A"), Err(SecretError::NoEquals));
    assert_eq!(parse_secret_flag("A=B"), Err(SecretError::NoAt));
    assert_eq!(parse_secret_flag("=B@h"), Err(SecretError::Empty));
    assert_eq!(parse_secret_flag("A=@h"), Err(SecretError::Empty));
    assert_eq!(SecretError::NoEquals.to_string(), "missing '=' separator");
    assert_eq!(SecretError::NoAt.to_string(), "missing '@' separator for hosts");
    assert_eq!(
        SecretError::Empty.to_string(),
        "name, env var, and hosts must all be non-empty"
    );
}
