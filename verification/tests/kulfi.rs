use shuru::guest::PortMapping;
use shuru::kulfi::{
    bridge_address, bridge_error, get_peer_id52_from_host, identity, kulfi_secret_key_path,
    load_or_create_secret_key, new_key_step, parse_expose, protocol_name, tunnel_failure,
    tunnel_notices, validate_exposes, ExposesError, KeyFile, KeyStep, KulfiExpose, KulfiProtocol,
    PeerError,
};

fn expose(host_port: u16, protocol: KulfiProtocol, bridge_port: Option<u16>) -> KulfiExpose {
    KulfiExpose { host_port, protocol, bridge_port }
}

fn forward(port: u16) -> PortMapping {
    PortMapping { host_port: port, guest_port: port }
}

#[test]
fn parse_http_expose() {
    let expose = parse_expose("3000:http").unwrap();
    assert_eq!(expose.host_port, 3000);
    assert_eq!(expose.protocol, KulfiProtocol::Http);
    assert_eq!(expose.bridge_port, None);
}

#[test]
fn parse_tcp_expose_with_bridge_port() {
    let expose = parse_expose("2222:tcp:9000").unwrap();
    assert_eq!(expose.host_port, 2222);
    assert_eq!(expose.protocol, KulfiProtocol::Tcp);
    assert_eq!(expose.bridge_port, Some(9000));
}

#[test]
fn reject_unknown_protocol() {
    assert!(parse_expose("3000:udp").is_err());
}

#[test]
fn reject_missing_forward() {
    let exposes = vec![expose(3000, KulfiProtocol::Http, None)];
    let err = validate_exposes(&exposes, &vec![]).unwrap_err();
    assert!(err.to_string().contains("matching -p/--port"));
}

#[test]
fn reject_duplicate_protocol_mapping() {
    let exposes = vec![
        expose(3000, KulfiProtocol::Http, None),
        expose(3000, KulfiProtocol::Http, Some(8081)),
    ];
    let forwards = vec![forward(3000)];
    let err = validate_exposes(&exposes, &forwards).unwrap_err();
    assert!(err.to_string().contains("duplicate --kulfi"));
}

#[test]
fn reject_bridge_port_conflicting_with_forward() {
    let exposes = vec![expose(3000, KulfiProtocol::Http, Some(3000))];
    let forwards = vec![forward(3000)];
    let err = validate_exposes(&exposes, &forwards).unwrap_err();
    assert!(err.to_string().contains("conflicts with an existing -p/--port"));
}

#[test]
fn reject_duplicate_explicit_bridge_ports() {
    let exposes = vec![
        expose(3000, KulfiProtocol::Http, Some(9000)),
        expose(4000, KulfiProtocol::Tcp, Some(9000)),
    ];
    let forwards = vec![forward(3000), forward(4000)];
    let err = validate_exposes(&exposes, &forwards).unwrap_err();
    assert!(err.to_string().contains("duplicate explicit kulfi bridge port"));
}

#[test]
fn exposes_that_do_not_clash_pass() {
    let exposes = vec![
        expose(3000, KulfiProtocol::Http, None),
        expose(3000, KulfiProtocol::Tcp, Some(9000)),
        expose(4000, KulfiProtocol::Tcp, Some(9001)),
    ];
    assert_eq!(validate_exposes(&exposes, &vec![forward(3000), forward(4000)]), Ok(()));
    assert_eq!(validate_exposes(&vec![], &vec![]), Ok(()));
}

#[test]
fn exposes_errors_have_their_messages() {
    assert_eq!(
        validate_exposes(&vec![expose(3000, KulfiProtocol::Tcp, None)], &vec![forward(4000)])
            .unwrap_err()
            .to_string(),
        "--kulfi 3000:tcp requires a matching -p/--port forward for host port 3000"
    );
    assert_eq!(
        ExposesError::Duplicate { port: 3000, protocol: KulfiProtocol::Http }.to_string(),
        "duplicate --kulfi mapping for host port 3000 (http)"
    );
    assert_eq!(
        ExposesError::BridgeTaken { port: 3000 }.to_string(),
        "kulfi bridge port 3000 conflicts with an existing -p/--port host listener"
    );
    assert_eq!(
        ExposesError::BridgeTwice { port: 9000 }.to_string(),
        "duplicate explicit kulfi bridge port 9000"
    );
}

#[test]
fn expose_errors_have_their_messages() {
    assert_eq!(
        parse_expose("3000").unwrap_err().to_string(),
        "expected HOST_PORT:http|tcp[:BRIDGE_PORT] format"
    );
    assert_eq!(
        parse_expose("1:http:2:3").unwrap_err().to_string(),
        "expected HOST_PORT:http|tcp[:BRIDGE_PORT] format"
    );
    assert_eq!(parse_expose("x:http").unwrap_err().to_string(), "invalid host port: 'x'");
    assert_eq!(
        parse_expose("1:udp:x").unwrap_err().to_string(),
        "invalid protocol 'udp': expected 'http' or 'tcp'"
    );
    assert_eq!(parse_expose("1:tcp:x").unwrap_err().to_string(), "invalid bridge port: 'x'");
    assert_eq!(protocol_name(KulfiProtocol::Http), "http");
}

#[test]
fn bridges_listen_on_loopback() {
    let http = expose(3000, KulfiProtocol::Http, None);
    let tcp = expose(3000, KulfiProtocol::Tcp, None);
    assert_eq!(bridge_address(&http, 7777), "127.0.0.1:0");
    assert_eq!(bridge_address(&tcp, 7777), "127.0.0.1:7777");
    assert_eq!(bridge_address(&expose(1, KulfiProtocol::Tcp, Some(9)), 7777), "127.0.0.1:9");
    assert_eq!(bridge_error(&http), "failed to bind Kulfi HTTP bridge port 0");
    assert_eq!(
        bridge_error(&expose(1, KulfiProtocol::Tcp, Some(9))),
        "failed to bind Kulfi TCP bridge port 9"
    );
    let (a, b) = tunnel_notices(&http, 8081, "abc", "kulfi.site");
    assert_eq!(a, "shuru: kulfi http bridge for 127.0.0.1:3000 at http://127.0.0.1:8081");
    assert_eq!(b, "shuru: kulfi public URL (bridge-dependent) https://abc.kulfi.site");
    let (a, b) = tunnel_notices(&tcp, 8081, "abc", "kulfi.site");
    assert_eq!(a, "shuru: kulfi tcp bridge for 127.0.0.1:3000 at 127.0.0.1:8081");
    assert_eq!(b, "shuru: connect locally with: nc 127.0.0.1 8081");
    assert_eq!(
        tunnel_failure(&tcp, "gone"),
        "shuru: kulfi tcp tunnel for host port 3000 unavailable: gone"
    );
}

#[test]
fn the_host_header_names_the_peer() {
    let id = "i66fo538lfl5ombdf6tcdbrabp4hmp9asv7nrffuc2im13ct4q60";
    let host = format!("{}.kulfi.site", id);
    assert_eq!(get_peer_id52_from_host(Some(&host), None), Ok(id.to_string()));
    assert_eq!(get_peer_id52_from_host(Some(&host), Some(id.to_string())), Ok(id.to_string()));
    assert_eq!(
        get_peer_id52_from_host(Some("127.0.0.1:8080"), Some("me".to_string())),
        Ok("me".to_string())
    );
    assert_eq!(
        get_peer_id52_from_host(Some(&host), Some("me".to_string())),
        Err(PeerError::InvalidPeer)
    );
    assert_eq!(get_peer_id52_from_host(Some("127.0.0.1"), None), Err(PeerError::InvalidPeer));
    assert_eq!(get_peer_id52_from_host(Some("localhost"), None), Err(PeerError::NoHost));
    assert_eq!(get_peer_id52_from_host(None, Some("me".to_string())), Err(PeerError::NoHost));
    assert_eq!(PeerError::NoHost.to_string(), "got http request without Host header");
    assert_eq!(PeerError::InvalidPeer.to_string(), "got http request with invalid peer id");
}

#[test]
fn a_stored_key_reads_back() {
    let (key, text) = match load_or_create_secret_key("/data", KeyFile::Missing).unwrap() {
        KeyStep::Store { key, text } => (key, text),
        KeyStep::Use { .. } => panic!("there was no key to use"),
    };
    assert_eq!(text.len(), 65);
    assert!(text.ends_with('\n'));
    match load_or_create_secret_key("/data", KeyFile::Text { text }).unwrap() {
        KeyStep::Use { key: read } => assert_eq!(read, key),
        KeyStep::Store { .. } => panic!("the key is stored already"),
    }
}

#[test]
fn a_key_is_written_in_hexadecimal() {
    let mut key = [0u8; 32];
    key[0] = 0xab;
    key[31] = 7;
    let mut text = String::from("ab");
    for _ in 0..30 {
        text.push_str("00");
    }
    text.push_str("07");
    match load_or_create_secret_key("/data", KeyFile::Text { text: format!("  {}\n", text) }).unwrap() {
        KeyStep::Use { key: read } => assert_eq!(read, key),
        KeyStep::Store { .. } => panic!("the key is stored already"),
    }
}

#[test]
fn a_file_without_a_key_is_an_error() {
    let text = "z".repeat(64);
    let err = load_or_create_secret_key("/data", KeyFile::Text { text }).unwrap_err();
    assert_eq!(err.to_string(), "failed to parse Kulfi secret key at /data/kulfi/secret-key");
    let err = load_or_create_secret_key("/data/", KeyFile::Unreadable).unwrap_err();
    assert_eq!(err.to_string(), "failed to read Kulfi secret key from /data/kulfi/secret-key");
    assert_eq!(kulfi_secret_key_path(""), "kulfi/secret-key");
}

#[test]
fn identities_belong_to_keys() {
    let a = identity(&[1u8; 32]);
    let b = identity(&[2u8; 32]);
    assert_eq!(a.len(), 52);
    assert_ne!(a, b);
    assert_eq!(a, kulfi_id52::SecretKey::from_bytes(&[1u8; 32]).id52());
    let host = format!("{}.kulfi.site", a);
    assert_eq!(get_peer_id52_from_host(Some(&host), Some(a.clone())), Ok(a));
}

#[test]
fn a_new_key_is_stored_in_hexadecimal() {
    let mut key = [0xabu8; 32];
    key[0] = 0x01;
    match new_key_step(key) {
        KeyStep::Store { key: stored, text } => {
            assert_eq!(stored, key);
            assert_eq!(text, format!("01{}\n", "ab".repeat(31)));
        }
        KeyStep::Use { .. } => panic!("a new key has to be stored"),
    }
}

#[test]
fn every_new_key_is_another() {
    let key_of = || match load_or_create_secret_key("/data", KeyFile::Missing).unwrap() {
        KeyStep::Store { key, .. } => key,
        KeyStep::Use { .. } => panic!("there was no key to use"),
    };
    assert_ne!(key_of(), key_of());
}
