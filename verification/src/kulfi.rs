//! Kulfi tunnels: which forwarded ports they expose, whom they talk to, and the
//! key that names this host to its peers.

use crate::guest::PortMapping;
use crate::paths::{join, joined};
use crate::sandbox::{local_address, local_address_text};
use crate::text::{
    cat, cat3, cut_all, cut_once, decimal, decimal_text, first_index, hex_text, law_cut_again,
    law_decimal_reads_back, lemma_first_index, lemma_hex_byte, parse_u16, split, split_once,
    str_eq, texts, trim, trim_end, trim_start, trimmed, unsigned_number,
};
use std::str::FromStr;
use vstd::prelude::*;
use vstd::utf8::{encode_utf8, is_ascii_chars, is_ascii_chars_encode_utf8};

verus! {

/// What a tunnel carries.
#[derive(Debug, Clone, Copy, PartialEq, Eq, Structural)]
pub enum KulfiProtocol {
    Http,
    Tcp,
}

/// A forwarded port that is to be reachable through a tunnel.
#[derive(Debug, Clone, Copy, PartialEq, Eq, Structural)]
pub struct KulfiExpose {
    pub host_port: u16,
    pub protocol: KulfiProtocol,
    pub bridge_port: Option<u16>,
}

/// The name of a protocol.
pub open spec fn protocol_text(p: KulfiProtocol) -> Seq<char> {
    match p {
        KulfiProtocol::Http => "http"@,
        KulfiProtocol::Tcp => "tcp"@,
    }
}

/// The protocol of that name, if there is one.
pub open spec fn protocol_named(name: Seq<char>) -> Option<KulfiProtocol> {
    if name == "http"@ {
        Some(KulfiProtocol::Http)
    } else if name == "tcp"@ {
        Some(KulfiProtocol::Tcp)
    } else {
        None
    }
}

/// The name of a protocol.
pub fn protocol_name(protocol: KulfiProtocol) -> (r: &'static str)
    ensures
        r@ == protocol_text(protocol),
{
    match protocol {
        KulfiProtocol::Http => "http",
        KulfiProtocol::Tcp => "tcp",
    }
}

/// What is wrong with a tunnel flag.
#[derive(Debug)]
pub enum ExposeError {
    Format,
    HostPort { text: String },
    Protocol { name: String },
    BridgePort { text: String },
}

/// The message of a flag error.
pub open spec fn expose_error_text(e: ExposeError) -> Seq<char> {
    match e {
        ExposeError::Format => "expected HOST_PORT:http|tcp[:BRIDGE_PORT] format"@,
        ExposeError::HostPort { text } => "invalid host port: '"@ + text@ + "'"@,
        ExposeError::Protocol { name } => "invalid protocol '"@ + name@
            + "': expected 'http' or 'tcp'"@,
        ExposeError::BridgePort { text } => "invalid bridge port: '"@ + text@ + "'"@,
    }
}

impl ExposeError {
    /// The message of this error.
    pub fn to_string(&self) -> (r: String)
        ensures
            r@ == expose_error_text(*self),
    {
        match self {
            ExposeError::Format => "expected HOST_PORT:http|tcp[:BRIDGE_PORT] format".to_owned(),
            ExposeError::HostPort { text } => cat3("invalid host port: '", text.as_str(), "'"),
            ExposeError::Protocol { name } => cat3(
                "invalid protocol '",
                name.as_str(),
                "': expected 'http' or 'tcp'",
            ),
            ExposeError::BridgePort { text } => cat3("invalid bridge port: '", text.as_str(), "'"),
        }
    }
}

/// Whether a tunnel flag makes that result.
pub open spec fn is_expose(s: Seq<char>, r: Result<KulfiExpose, ExposeError>) -> bool {
    let parts = cut_all(s, ':');
    if !(2 <= parts.len() <= 3) {
        r == Err::<KulfiExpose, _>(ExposeError::Format)
    } else if unsigned_number(parts[0], 0xffff) is None {
        r matches Err(ExposeError::HostPort { text }) && text@ == parts[0]
    } else if protocol_named(parts[1]) is None {
        r matches Err(ExposeError::Protocol { name }) && name@ == parts[1]
    } else if parts.len() == 3 && unsigned_number(parts[2], 0xffff) is None {
        r matches Err(ExposeError::BridgePort { text }) && text@ == parts[2]
    } else {
        &&& r matches Ok(e)
        &&& unsigned_number(parts[0], 0xffff) == Some(e.host_port as nat)
        &&& protocol_named(parts[1]) == Some(e.protocol)
        &&& match e.bridge_port {
            Some(p) => parts.len() == 3 && unsigned_number(parts[2], 0xffff) == Some(p as nat),
            None => parts.len() == 2,
        }
    }
}

/// The tunnel that a flag describes, if it describes one.
pub open spec fn expose_of(s: Seq<char>) -> Option<KulfiExpose> {
    let parts = cut_all(s, ':');
    if !(2 <= parts.len() <= 3) || (parts.len() == 3 && unsigned_number(parts[2], 0xffff) is None) {
        None
    } else {
        match (unsigned_number(parts[0], 0xffff), protocol_named(parts[1])) {
            (Some(port), Some(protocol)) => Some(
                KulfiExpose {
                    host_port: port as u16,
                    protocol,
                    bridge_port: if parts.len() == 3 {
                        Some(unsigned_number(parts[2], 0xffff)->0 as u16)
                    } else {
                        None
                    },
                },
            ),
            _ => None,
        }
    }
}

/// Parses `HOST_PORT:http|tcp[:BRIDGE_PORT]`.
pub fn parse_expose(s: &str) -> (r: Result<KulfiExpose, ExposeError>)
    ensures
        is_expose(s@, r),
        match r {
            Ok(e) => expose_of(s@) == Some(e),
            Err(_) => expose_of(s@) is None,
        },
{
    let parts = split(s, ':');
    assert(texts(parts@).len() == parts@.len());
    if parts.len() < 2 || parts.len() > 3 {
        return Err(ExposeError::Format);
    }
    assert(texts(parts@)[0] == parts@[0]@);
    assert(texts(parts@)[1] == parts@[1]@);
    let host_port = match parse_u16(parts[0].as_str()) {
        Some(n) => n,
        None => return Err(ExposeError::HostPort { text: parts[0].clone() }),
    };
    let protocol = if str_eq(parts[1].as_str(), "http") {
        KulfiProtocol::Http
    } else if str_eq(parts[1].as_str(), "tcp") {
        KulfiProtocol::Tcp
    } else {
        return Err(ExposeError::Protocol { name: parts[1].clone() });
    };
    let bridge_port = if parts.len() == 3 {
        assert(texts(parts@)[2] == parts@[2]@);
        match parse_u16(parts[2].as_str()) {
            Some(n) => Some(n),
            None => return Err(ExposeError::BridgePort { text: parts[2].clone() }),
        }
    } else {
        None
    };
    Ok(KulfiExpose { host_port, protocol, bridge_port })
}

/// Why the tunnels cannot be set up together.
#[derive(Debug, Clone, Copy, PartialEq, Eq, Structural)]
pub enum ExposesError {
    /// The port is not forwarded.
    NoForward { port: u16, protocol: KulfiProtocol },
    /// The port is exposed twice in the same way.
    Duplicate { port: u16, protocol: KulfiProtocol },
    /// The bridge port is a forwarded port.
    BridgeTaken { port: u16 },
    /// Two tunnels ask for the same bridge port.
    BridgeTwice { port: u16 },
}

/// The message of an error.
pub open spec fn exposes_error_text(e: ExposesError) -> Seq<char> {
    match e {
        ExposesError::NoForward { port, protocol } => "--kulfi "@ + decimal_text(port as nat)
            + ":"@ + protocol_text(protocol)
            + " requires a matching -p/--port forward for host port "@ + decimal_text(port as nat),
        ExposesError::Duplicate { port, protocol } =>
            "duplicate --kulfi mapping for host port "@ + decimal_text(port as nat) + " ("@
            + protocol_text(protocol) + ")"@,
        ExposesError::BridgeTaken { port } => "kulfi bridge port "@ + decimal_text(port as nat)
            + " conflicts with an existing -p/--port host listener"@,
        ExposesError::BridgeTwice { port } => "duplicate explicit kulfi bridge port "@
            + decimal_text(port as nat),
    }
}

impl ExposesError {
    /// The message of this error.
    pub fn to_string(&self) -> (r: String)
        ensures
            r@ == exposes_error_text(*self),
    {
        match self {
            ExposesError::NoForward { port, protocol } => {
                let n = decimal(*port as u64);
                let mut r = cat3("--kulfi ", n.as_str(), ":");
                r.append(protocol_name(*protocol));
                r.append(" requires a matching -p/--port forward for host port ");
                r.append(n.as_str());
                r
            },
            ExposesError::Duplicate { port, protocol } => {
                let mut r = cat3(
                    "duplicate --kulfi mapping for host port ",
                    decimal(*port as u64).as_str(),
                    " (",
                );
                r.append(protocol_name(*protocol));
                r.append(")");
                r
            },
            ExposesError::BridgeTaken { port } => cat3(
                "kulfi bridge port ",
                decimal(*port as u64).as_str(),
                " conflicts with an existing -p/--port host listener",
            ),
            ExposesError::BridgeTwice { port } => cat(
                "duplicate explicit kulfi bridge port ",
                decimal(*port as u64).as_str(),
            ),
        }
    }
}

/// Whether some forward listens on that host port.
pub open spec fn is_forwarded(forwards: Seq<PortMapping>, port: u16) -> bool {
    exists|i: int| 0 <= i < forwards.len() && (#[trigger] forwards[i]).host_port == port
}

/// Whether one of the first `k` tunnels exposes that port in that way.
pub open spec fn is_exposed(
    exposes: Seq<KulfiExpose>,
    k: int,
    port: u16,
    protocol: KulfiProtocol,
) -> bool {
    exists|i: int|
        0 <= i < k && (#[trigger] exposes[i]).host_port == port && exposes[i].protocol == protocol
}

/// Whether one of the first `k` tunnels asks for that bridge port.
pub open spec fn is_bridge(exposes: Seq<KulfiExpose>, k: int, port: u16) -> bool {
    exists|i: int| 0 <= i < k && (#[trigger] exposes[i]).bridge_port == Some(port)
}

/// What is wrong with the `k`th tunnel beside those before it and the forwards.
pub open spec fn expose_fault(
    exposes: Seq<KulfiExpose>,
    forwards: Seq<PortMapping>,
    k: int,
) -> Option<ExposesError> {
    let e = exposes[k];
    if !is_forwarded(forwards, e.host_port) {
        Some(ExposesError::NoForward { port: e.host_port, protocol: e.protocol })
    } else if is_exposed(exposes, k, e.host_port, e.protocol) {
        Some(ExposesError::Duplicate { port: e.host_port, protocol: e.protocol })
    } else {
        match e.bridge_port {
            Some(port) => if is_forwarded(forwards, port) {
                Some(ExposesError::BridgeTaken { port })
            } else if is_bridge(exposes, k, port) {
                Some(ExposesError::BridgeTwice { port })
            } else {
                None
            },
            None => None,
        }
    }
}

/// Whether the tunnels, taken in order, give that result.
pub open spec fn exposes_checked(
    exposes: Seq<KulfiExpose>,
    forwards: Seq<PortMapping>,
    r: Result<(), ExposesError>,
) -> bool {
    match r {
        Ok(_) => forall|k: int|
            0 <= k < exposes.len() ==> #[trigger] expose_fault(exposes, forwards, k) is None,
        Err(e) => exists|k: int|
            {
                &&& 0 <= k < exposes.len()
                &&& #[trigger] expose_fault(exposes, forwards, k) == Some(e)
                &&& forall|i: int|
                    0 <= i < k ==> #[trigger] expose_fault(exposes, forwards, i) is None
            },
    }
}

/// Tunnels that pass expose forwarded ports only, each in one way once, and no two
/// listeners of the host share a port.
pub proof fn law_exposes_do_not_clash(
    exposes: Seq<KulfiExpose>,
    forwards: Seq<PortMapping>,
    i: int,
    j: int,
)
    requires
        exposes_checked(exposes, forwards, Ok(())),
        0 <= i < j < exposes.len(),
    ensures
        is_forwarded(forwards, exposes[i].host_port),
        is_forwarded(forwards, exposes[j].host_port),
        exposes[i].host_port != exposes[j].host_port || exposes[i].protocol != exposes[j].protocol,
        exposes[i].bridge_port is Some ==> exposes[i].bridge_port != exposes[j].bridge_port,
        exposes[i].bridge_port matches Some(p) ==> !is_forwarded(forwards, p),
        exposes[j].bridge_port matches Some(p) ==> !is_forwarded(forwards, p),
{
    assert(expose_fault(exposes, forwards, i) is None);
    assert(expose_fault(exposes, forwards, j) is None);
}

fn forwarded(forwards: &Vec<PortMapping>, port: u16) -> (r: bool)
    ensures
        r == is_forwarded(forwards@, port),
{
    let mut i: usize = 0;
    while i < forwards.len()
        invariant
            i <= forwards@.len(),
            forall|j: int| 0 <= j < i ==> (#[trigger] forwards@[j]).host_port != port,
        decreases forwards@.len() - i,
    {
        if forwards[i].host_port == port {
            return true;
        }
        i += 1;
    }
    false
}

/// Checks the tunnels against each other and against the port forwards.
pub fn validate_exposes(exposes: &Vec<KulfiExpose>, forwards: &Vec<PortMapping>) -> (r: Result<
    (),
    ExposesError,
>)
    ensures
        exposes_checked(exposes@, forwards@, r),
{
    let mut k: usize = 0;
    while k < exposes.len()
        invariant
            k <= exposes@.len(),
            forall|i: int|
                0 <= i < k ==> #[trigger] expose_fault(exposes@, forwards@, i) is None,
        decreases exposes@.len() - k,
    {
        let e = exposes[k];
        let mut exposed = false;
        let mut bridged = false;
        let mut i: usize = 0;
        while i < k
            invariant
                i <= k < exposes@.len(),
                e == exposes@[k as int],
                exposed == is_exposed(exposes@, i as int, e.host_port, e.protocol),
                e.bridge_port matches Some(p) ==> bridged == is_bridge(exposes@, i as int, p),
            decreases k - i,
        {
            let other = exposes[i];
            if other.host_port == e.host_port && other.protocol == e.protocol {
                assert(exposes@[i as int].host_port == e.host_port);
                exposed = true;
            }
            if other.bridge_port.is_some() && e.bridge_port.is_some() && other.bridge_port.unwrap()
                == e.bridge_port.unwrap() {
                assert(exposes@[i as int].bridge_port == e.bridge_port);
                bridged = true;
            }
            i += 1;
        }
        let fault = if !forwarded(forwards, e.host_port) {
            Some(ExposesError::NoForward { port: e.host_port, protocol: e.protocol })
        } else if exposed {
            Some(ExposesError::Duplicate { port: e.host_port, protocol: e.protocol })
        } else {
            match e.bridge_port {
                Some(port) => if forwarded(forwards, port) {
                    Some(ExposesError::BridgeTaken { port })
                } else if bridged {
                    Some(ExposesError::BridgeTwice { port })
                } else {
                    None
                },
                None => None,
            }
        };
        assert(fault == expose_fault(exposes@, forwards@, k as int));
        if let Some(error) = fault {
            return Err(error);
        }
        k += 1;
    }
    Ok(())
}

/// The address that the bridge of a tunnel listens at. Without a port of its own, the
/// bridge of HTTP lets the system choose, and that of TCP takes the port that was
/// allocated for it.
pub open spec fn bridge_port_of(expose: KulfiExpose, allocated: u16) -> u16 {
    match (expose.bridge_port, expose.protocol) {
        (Some(port), _) => port,
        (None, KulfiProtocol::Http) => 0,
        (None, KulfiProtocol::Tcp) => allocated,
    }
}

/// The address that the bridge of a tunnel listens at.
pub fn bridge_address(expose: &KulfiExpose, allocated: u16) -> (r: String)
    ensures
        r@ == local_address_text(bridge_port_of(*expose, allocated)),
{
    let port = match expose.bridge_port {
        Some(port) => port,
        None => match expose.protocol {
            KulfiProtocol::Http => 0,
            KulfiProtocol::Tcp => allocated,
        },
    };
    local_address(port)
}

/// Why the bridge of a tunnel cannot listen.
pub fn bridge_error(expose: &KulfiExpose) -> (r: String)
    ensures
        r@ == (match expose.protocol {
            KulfiProtocol::Http => "failed to bind Kulfi HTTP bridge port "@,
            KulfiProtocol::Tcp => "failed to bind Kulfi TCP bridge port "@,
        }) + decimal_text(
            match expose.bridge_port {
                Some(port) => port as nat,
                None => 0,
            },
        ),
{
    let port = match expose.bridge_port {
        Some(port) => port,
        None => 0,
    };
    match expose.protocol {
        KulfiProtocol::Http => cat(
            "failed to bind Kulfi HTTP bridge port ",
            decimal(port as u64).as_str(),
        ),
        KulfiProtocol::Tcp => cat(
            "failed to bind Kulfi TCP bridge port ",
            decimal(port as u64).as_str(),
        ),
    }
}

/// What is said of a tunnel whose bridge listens at `bound_port`: where the bridge is,
/// and how to reach the port through it.
pub open spec fn tunnel_texts(
    expose: KulfiExpose,
    bound_port: u16,
    id52: Seq<char>,
    bridge_domain: Seq<char>,
) -> (Seq<char>, Seq<char>) {
    match expose.protocol {
        KulfiProtocol::Http => (
            "shuru: kulfi http bridge for "@ + local_address_text(expose.host_port) + " at http://"@
                + local_address_text(bound_port),
            "shuru: kulfi public URL (bridge-dependent) https://"@ + id52 + "."@ + bridge_domain,
        ),
        KulfiProtocol::Tcp => (
            "shuru: kulfi tcp bridge for "@ + local_address_text(expose.host_port) + " at "@
                + local_address_text(bound_port),
            "shuru: connect locally with: nc 127.0.0.1 "@ + decimal_text(bound_port as nat),
        ),
    }
}

/// What is said of a tunnel whose bridge listens at `bound_port`.
pub fn tunnel_notices(
    expose: &KulfiExpose,
    bound_port: u16,
    id52: &str,
    bridge_domain: &str,
) -> (r: (String, String))
    ensures
        (r.0@, r.1@) == tunnel_texts(*expose, bound_port, id52@, bridge_domain@),
{
    let target = local_address(expose.host_port);
    let bridge = local_address(bound_port);
    match expose.protocol {
        KulfiProtocol::Http => {
            let mut a = cat3("shuru: kulfi http bridge for ", target.as_str(), " at http://");
            a.append(bridge.as_str());
            let mut b = cat3("shuru: kulfi public URL (bridge-dependent) https://", id52, ".");
            b.append(bridge_domain);
            (a, b)
        },
        KulfiProtocol::Tcp => {
            let mut a = cat3("shuru: kulfi tcp bridge for ", target.as_str(), " at ");
            a.append(bridge.as_str());
            let b = cat(
                "shuru: connect locally with: nc 127.0.0.1 ",
                decimal(bound_port as u64).as_str(),
            );
            (a, b)
        },
    }
}

/// What is said of a tunnel that could not be set up.
pub fn tunnel_failure(expose: &KulfiExpose, error: &str) -> (r: String)
    ensures
        r@ == "shuru: kulfi "@ + protocol_text(expose.protocol) + " tunnel for host port "@
            + decimal_text(expose.host_port as nat) + " unavailable: "@ + error@,
{
    let mut r = cat3("shuru: kulfi ", protocol_name(expose.protocol), " tunnel for host port ");
    r.append(decimal(expose.host_port as u64).as_str());
    r.append(" unavailable: ");
    r.append(error);
    r
}

/// Why a request to a bridge is for no peer.
#[derive(Debug, Clone, Copy, PartialEq, Eq, Structural)]
pub enum PeerError {
    NoHost,
    InvalidPeer,
}

/// The message of an error.
pub open spec fn peer_error_text(e: PeerError) -> Seq<char> {
    match e {
        PeerError::NoHost => "got http request without Host header"@,
        PeerError::InvalidPeer => "got http request with invalid peer id"@,
    }
}

impl PeerError {
    /// The message of this error.
    pub fn to_string(&self) -> (r: String)
        ensures
            r@ == peer_error_text(*self),
    {
        match self {
            PeerError::NoHost => "got http request without Host header".to_owned(),
            PeerError::InvalidPeer => "got http request with invalid peer id".to_owned(),
        }
    }
}

/// The peer that a request is for, by the first label of its host. A bridge with a
/// target serves that peer alone, and takes a loopback address for it.
pub open spec fn peer_of(host: Option<Seq<char>>, target: Option<Seq<char>>) -> Result<
    Seq<char>,
    PeerError,
> {
    match host {
        None => Err(PeerError::NoHost),
        Some(h) => match cut_once(h, '.') {
            None => Err(PeerError::NoHost),
            Some((first, _)) => match target {
                Some(t) => if first == "127"@ || first == t {
                    Ok(t)
                } else {
                    Err(PeerError::InvalidPeer)
                },
                None => if encode_utf8(first).len() == 52 {
                    Ok(first)
                } else {
                    Err(PeerError::InvalidPeer)
                },
            },
        },
    }
}

/// A bridge with a target reaches no other peer.
pub proof fn law_bridge_serves_its_target(host: Option<Seq<char>>, target: Seq<char>)
    ensures
        peer_of(host, Some(target)) matches Ok(peer) ==> peer == target,
{
}

/// Finds the peer that a request is for.
pub fn get_peer_id52_from_host(host: Option<&str>, proxy_target: Option<String>) -> (r: Result<
    String,
    PeerError,
>)
    ensures
        peer_of(
            match host {
                Some(h) => Some(h@),
                None => None,
            },
            match proxy_target {
                Some(t) => Some(t@),
                None => None,
            },
        ) == (match r {
            Ok(peer) => Ok(peer@),
            Err(e) => Err(e),
        }),
{
    let first = match host {
        None => return Err(PeerError::NoHost),
        Some(h) => match split_once(h, '.') {
            None => return Err(PeerError::NoHost),
            Some((first, _)) => first,
        },
    };
    match proxy_target {
        Some(target) => if str_eq(first.as_str(), "127") || str_eq(
            first.as_str(),
            target.as_str(),
        ) {
            Ok(target)
        } else {
            Err(PeerError::InvalidPeer)
        },
        None => if first.as_str().as_bytes().len() == 52 {
            Ok(first)
        } else {
            Err(PeerError::InvalidPeer)
        },
    }
}

/// The path of the file that holds this host's key.
pub open spec fn secret_key_path_text(data_dir: Seq<char>) -> Seq<char> {
    joined(joined(data_dir, "kulfi"@), "secret-key"@)
}

/// The path of the file that holds this host's key.
pub fn kulfi_secret_key_path(data_dir: &str) -> (r: String)
    ensures
        r@ == secret_key_path_text(data_dir@),
{
    join(join(data_dir, "kulfi").as_str(), "secret-key")
}

/// The bytes of the secret key that a text stands for, or what is wrong with it.
pub uninterp spec fn key_of_text(text: Seq<char>) -> Result<Seq<u8>, Seq<char>>;

/// The name of the public key that belongs to a secret key.
pub uninterp spec fn id52_of_key(key: Seq<u8>) -> Seq<char>;

/// The view of a parsed key.
pub open spec fn key_view(r: Result<[u8; 32], String>) -> Result<Seq<u8>, Seq<char>> {
    match r {
        Ok(key) => Ok(key@),
        Err(e) => Err(e@),
    }
}

/// Some bytes in hexadecimal, two digits each.
pub open spec fn bytes_hex(s: Seq<u8>) -> Seq<char>
    decreases s.len(),
{
    if s.len() == 0 {
        Seq::empty()
    } else {
        bytes_hex(s.drop_last()) + hex_text(s.last() as nat, 2)
    }
}

/// Whether a text stands for that key.
pub open spec fn is_key_text(text: Seq<char>, key: Seq<u8>) -> bool {
    key_of_text(text) == Ok::<Seq<u8>, Seq<char>>(key)
}

/// Whether a text has the length of a key, in hexadecimal or in Base32.
pub open spec fn has_key_length(text: Seq<char>) -> bool {
    encode_utf8(text).len() == 64 || encode_utf8(text).len() == 52
}

/// `SecretKey::from_str` and `SecretKey::to_bytes` of `kulfi_id52`, with the text of the
/// error. Trusted: the result is a function of the text alone. It panics on a text whose
/// length is neither that of a key in hexadecimal nor in Base32.
#[verifier::external_body]
fn key_from_text(text: &str) -> (r: Result<[u8; 32], String>)
    requires
        has_key_length(text@),
    ensures
        key_view(r) == key_of_text(text@),
{
    kulfi_id52::SecretKey::from_str(text).map(|key| key.to_bytes()).map_err(|e| e.to_string())
}

/// `SecretKey::from_bytes` of `kulfi_id52` and the key's `Display`. Trusted: the text is
/// the key in hexadecimal, and stands for the key.
#[verifier::external_body]
fn key_to_text(key: &[u8; 32]) -> (r: String)
    ensures
        r@ == bytes_hex(key@),
        is_key_text(r@, key@),
{
    kulfi_id52::SecretKey::from_bytes(key).to_string()
}

/// `SecretKey::from_bytes` and `SecretKey::id52` of `kulfi_id52`. Trusted: the name is a
/// function of the key alone, and 52 characters of "0" to "9" and "a" to "v".
#[verifier::external_body]
fn key_to_id52(key: &[u8; 32]) -> (r: String)
    ensures
        r@ == id52_of_key(key@),
        r@.len() == 52,
        forall|i: int|
            0 <= i < r@.len() ==> ('0' <= #[trigger] r@[i] <= '9' || 'a' <= r@[i] <= 'v'),
{
    kulfi_id52::SecretKey::from_bytes(key).id52()
}

/// `SecretKey::generate` of `kulfi_id52`. Nothing is known of the key: it is random.
#[verifier::external_body]
fn new_key() -> [u8; 32] {
    kulfi_id52::SecretKey::generate().to_bytes()
}

/// What reading the file of the key gave.
#[derive(Debug)]
pub enum KeyFile {
    Text { text: String },
    /// There is no such file.
    Missing,
    /// The file cannot be read.
    Unreadable,
}

/// What to do with the key.
#[derive(Debug)]
pub enum KeyStep {
    /// Use it.
    Use { key: [u8; 32] },
    /// Store the text, readable by the owner alone, and use the key.
    Store { key: [u8; 32], text: String },
}

/// Why there is no key.
#[derive(Debug)]
pub enum KeyError {
    /// The file does not hold a key.
    Invalid { path: String, cause: String },
    Unreadable { path: String },
}

/// The message of an error.
pub open spec fn key_error_text(e: KeyError) -> Seq<char> {
    match e {
        KeyError::Invalid { path, .. } => "failed to parse Kulfi secret key at "@ + path@,
        KeyError::Unreadable { path } => "failed to read Kulfi secret key from "@ + path@,
    }
}

impl KeyError {
    /// The message of this error.
    pub fn to_string(&self) -> (r: String)
        ensures
            r@ == key_error_text(*self),
    {
        match self {
            KeyError::Invalid { path, .. } => cat(
                "failed to parse Kulfi secret key at ",
                path.as_str(),
            ),
            KeyError::Unreadable { path } => cat(
                "failed to read Kulfi secret key from ",
                path.as_str(),
            ),
        }
    }
}

/// The text of a key as it is stored: with a line end.
pub open spec fn stored_key_text(key: Seq<u8>) -> Seq<char> {
    bytes_hex(key) + "\n"@
}

/// What to do with a key that was just made: store its text, with a line end.
pub fn new_key_step(key: [u8; 32]) -> (r: KeyStep)
    ensures
        r matches KeyStep::Store { key: k, text } && k == key && text@ == stored_key_text(key@)
            && is_key_text(bytes_hex(key@), key@),
{
    let text = cat(key_to_text(&key).as_str(), "\n");
    KeyStep::Store { key, text }
}

/// Reads this host's key, or makes a new one to be stored where there is none yet.
pub fn load_or_create_secret_key(data_dir: &str, file: KeyFile) -> (r: Result<KeyStep, KeyError>)
    requires
        file matches KeyFile::Text { text } ==> has_key_length(trimmed(text@)),
    ensures
        match file {
            KeyFile::Text { text } => match key_of_text(trimmed(text@)) {
                Ok(key) => r matches Ok(KeyStep::Use { key: k }) && k@ == key,
                Err(cause) => r matches Err(KeyError::Invalid { path, cause: c }) && path@
                    == secret_key_path_text(data_dir@) && c@ == cause,
            },
            KeyFile::Missing => r matches Ok(KeyStep::Store { key, text }) && text@
                == stored_key_text(key@) && is_key_text(bytes_hex(key@), key@),
            KeyFile::Unreadable => r matches Err(KeyError::Unreadable { path }) && path@
                == secret_key_path_text(data_dir@),
        },
{
    match file {
        KeyFile::Text { text } => match key_from_text(trim(text.as_str()).as_str()) {
            Ok(key) => Ok(KeyStep::Use { key }),
            Err(cause) => Err(
                KeyError::Invalid { path: kulfi_secret_key_path(data_dir), cause },
            ),
        },
        KeyFile::Missing => Ok(new_key_step(new_key())),
        KeyFile::Unreadable => Err(
            KeyError::Unreadable { path: kulfi_secret_key_path(data_dir) },
        ),
    }
}

/// The name by which peers know this host.
pub fn identity(key: &[u8; 32]) -> (r: String)
    ensures
        r@ == id52_of_key(key@),
        r@.len() == 52,
        !r@.contains('.'),
{
    key_to_id52(key)
}

proof fn lemma_bytes_hex(s: Seq<u8>)
    ensures
        bytes_hex(s).len() == 2 * s.len(),
        forall|i: int|
            0 <= i < bytes_hex(s).len() ==> ('0' <= #[trigger] bytes_hex(s)[i] <= '9' || 'a'
                <= bytes_hex(s)[i] <= 'f'),
    decreases s.len(),
{
    if s.len() > 0 {
        lemma_bytes_hex(s.drop_last());
        lemma_hex_byte(s.last());
    }
}

/// A key that was stored is read back as the same key: the text that is stored has the
/// length of a key once the line end is trimmed off, and stands for the key.
pub proof fn law_stored_key_reads_back(key: Seq<u8>)
    requires
        key.len() == 32,
        is_key_text(bytes_hex(key), key),
    ensures
        trimmed(stored_key_text(key)) == bytes_hex(key),
        has_key_length(trimmed(stored_key_text(key))),
        key_of_text(trimmed(stored_key_text(key))) == Ok::<Seq<u8>, Seq<char>>(key),
{
    let hex = bytes_hex(key);
    lemma_bytes_hex(key);
    reveal_strlit("\n");
    let stored = stored_key_text(key);
    assert(stored[0] == hex[0]);
    assert(trim_start(stored) == stored);
    assert(stored.last() == '\n');
    assert(stored.drop_last() =~= hex);
    assert(hex.last() == hex[hex.len() - 1]);
    reveal_with_fuel(trim_end, 2);
    assert(trim_end(stored) == hex);
    assert(is_ascii_chars(hex));
    is_ascii_chars_encode_utf8(hex);
}

/// The public address of this host leads its bridge back to this host.
pub proof fn law_public_host_is_own(id52: Seq<char>, domain: Seq<char>)
    requires
        !id52.contains('.'),
    ensures
        peer_of(Some(id52 + "."@ + domain), Some(id52)) == Ok::<Seq<char>, PeerError>(id52),
        encode_utf8(id52).len() == 52 ==> peer_of(Some(id52 + "."@ + domain), None) == Ok::<
            Seq<char>,
            PeerError,
        >(id52),
{
    let host = id52 + "."@ + domain;
    reveal_strlit(".");
    lemma_first_index(host, '.');
    lemma_first_index(id52, '.');
    let k = id52.len() as int;
    assert(host[k] == '.');
    assert(host.contains('.'));
    let f = first_index(host, '.') as int;
    if f < k {
        assert(id52[f] == '.');
    }
    assert(host.take(k) =~= id52);
}

/// A tunnel that is written out is read back: port, protocol, and the bridge port if there
/// is one.
pub proof fn law_exposes_read_back(e: KulfiExpose)
    ensures
        expose_of(
            decimal_text(e.host_port as nat) + seq![':'] + (match e.protocol {
                KulfiProtocol::Http => "http"@,
                KulfiProtocol::Tcp => "tcp"@,
            } + (match e.bridge_port {
                Some(port) => seq![':'] + decimal_text(port as nat),
                None => Seq::empty(),
            })),
        ) == Some(e),
{
    reveal_strlit("http");
    reveal_strlit("tcp");
    let h = decimal_text(e.host_port as nat);
    let p = protocol_text(e.protocol);
    law_decimal_reads_back(e.host_port as nat, 0xffff);
    assert(!p.contains(':'));
    assert(protocol_named(p) == Some(e.protocol)) by {
        assert("http"@.len() != "tcp"@.len());
    }
    match e.bridge_port {
        Some(port) => {
            let b = decimal_text(port as nat);
            law_decimal_reads_back(port as nat, 0xffff);
            assert(p + (seq![':'] + b) =~= p + seq![':'] + b);
            law_cut_again(h, ':', p + seq![':'] + b);
            law_cut_again(p, ':', b);
            law_cut_again(b, ':', Seq::empty());
            assert(cut_all(h + seq![':'] + (p + seq![':'] + b), ':') =~= seq![h, p, b]);
        },
        None => {
            assert(p + Seq::<char>::empty() =~= p);
            law_cut_again(h, ':', p);
            law_cut_again(p, ':', Seq::empty());
            assert(cut_all(h + seq![':'] + p, ':') =~= seq![h, p]);
        },
    }
}

/// A flag is read as the tunnel that it describes, or as none with the reason: it needs a
/// port, then "http" or "tcp", then at most a bridge port.
pub proof fn law_exposes_are_checked_in_order(
    host: Seq<char>,
    protocol: Seq<char>,
    bridge: Option<Seq<char>>,
    r: Result<KulfiExpose, ExposeError>,
)
    requires
        !host.contains(':'),
        !protocol.contains(':'),
        bridge matches Some(b) ==> !b.contains(':'),
        is_expose(
            host + seq![':'] + (protocol + (match bridge {
                Some(b) => seq![':'] + b,
                None => Seq::empty(),
            })),
            r,
        ),
    ensures
        ({
            let port = unsigned_number(host, 65535);
            let known = protocol == "http"@ || protocol == "tcp"@;
            let bridged = bridge matches Some(b) ==> unsigned_number(b, 65535) is Some;
            &&& r is Ok <==> port is Some && known && bridged
            &&& port is None ==> (r matches Err(ExposeError::HostPort { text }) && text@ == host)
            &&& port is Some && !known ==> (r matches Err(ExposeError::Protocol { name }) && name@
                == protocol)
            &&& port is Some && known && !bridged ==> (r matches Err(
                ExposeError::BridgePort { text },
            ) && Some(text@) == bridge)
            &&& r matches Ok(e) ==> port == Some(e.host_port as nat) && (e.protocol
                == KulfiProtocol::Http <==> protocol == "http"@) && (match (bridge, e.bridge_port) {
                (Some(b), Some(n)) => unsigned_number(b, 65535) == Some(n as nat),
                (None, None) => true,
                _ => false,
            })
        }),
{
    reveal_strlit("http");
    reveal_strlit("tcp");
    assert("http"@.len() != "tcp"@.len());
    match bridge {
        Some(b) => {
            assert(protocol + (seq![':'] + b) =~= protocol + seq![':'] + b);
            law_cut_again(host, ':', protocol + seq![':'] + b);
            law_cut_again(protocol, ':', b);
            law_cut_again(b, ':', Seq::empty());
            assert(cut_all(host + seq![':'] + (protocol + seq![':'] + b), ':') =~= seq![
                host,
                protocol,
                b,
            ]);
        },
        None => {
            assert(protocol + Seq::<char>::empty() =~= protocol);
            law_cut_again(host, ':', protocol);
            law_cut_again(protocol, ':', Seq::empty());
            assert(cut_all(host + seq![':'] + protocol, ':') =~= seq![host, protocol]);
        },
    }
}

/// Tunnels are refused for a reason: one whose port is not forwarded, one that exposes a
/// port in the same way as one before it, one whose bridge port is forwarded, or one whose
/// bridge port another has asked for; and they pass where there is none such.
pub proof fn law_exposes_are_refused_for_a_reason(
    exposes: Seq<KulfiExpose>,
    forwards: Seq<PortMapping>,
    r: Result<(), ExposesError>,
)
    requires
        exposes_checked(exposes, forwards, r),
    ensures
        match r {
            Ok(_) => forall|k: int|
                0 <= k < exposes.len() ==> exists|i: int|
                    0 <= i < forwards.len() && (#[trigger] forwards[i]).host_port == (
                    #[trigger] exposes[k]).host_port,
            Err(ExposesError::NoForward { port, protocol }) => (exists|k: int|
                0 <= k < exposes.len() && (#[trigger] exposes[k]).host_port == port
                    && exposes[k].protocol == protocol) && forall|i: int|
                0 <= i < forwards.len() ==> (#[trigger] forwards[i]).host_port != port,
            Err(ExposesError::Duplicate { port, protocol }) => exists|i: int, k: int|
                0 <= i < k < exposes.len() && (#[trigger] exposes[i]).host_port == port
                    && exposes[i].protocol == protocol && (#[trigger] exposes[k]).host_port == port
                    && exposes[k].protocol == protocol,
            Err(ExposesError::BridgeTaken { port }) => (exists|k: int|
                0 <= k < exposes.len() && (#[trigger] exposes[k]).bridge_port == Some(port))
                && exists|i: int|
                0 <= i < forwards.len() && (#[trigger] forwards[i]).host_port == port,
            Err(ExposesError::BridgeTwice { port }) => exists|i: int, k: int|
                0 <= i < k < exposes.len() && (#[trigger] exposes[i]).bridge_port == Some(port) && (
                #[trigger] exposes[k]).bridge_port == Some(port),
        },
{
    match r {
        Ok(_) => {
            assert forall|k: int| 0 <= k < exposes.len() implies exists|i: int|
                0 <= i < forwards.len() && (#[trigger] forwards[i]).host_port == (
                #[trigger] exposes[k]).host_port by {
                assert(expose_fault(exposes, forwards, k) is None);
            }
        },
        Err(e) => {
            let k = choose|k: int|
                {
                    &&& 0 <= k < exposes.len()
                    &&& #[trigger] expose_fault(exposes, forwards, k) == Some(e)
                    &&& forall|i: int|
                        0 <= i < k ==> #[trigger] expose_fault(exposes, forwards, i) is None
                };
            let x = exposes[k];
            assert(expose_fault(exposes, forwards, k) == Some(e));
            match e {
                ExposesError::Duplicate { port, protocol } => {
                    let i = choose|i: int|
                        0 <= i < k && (#[trigger] exposes[i]).host_port == port
                            && exposes[i].protocol == protocol;
                    assert(exposes[i].host_port == port && exposes[k].host_port == port);
                },
                ExposesError::BridgeTwice { port } => {
                    let i = choose|i: int|
                        0 <= i < k && (#[trigger] exposes[i]).bridge_port == Some(port);
                    assert(exposes[i].bridge_port == Some(port));
                    assert(exposes[k].bridge_port == Some(port));
                },
                _ => {},
            }
        },
    }
}

/// Tunnels to forwarded ports that share neither a port and protocol nor a bridge port,
/// with bridge ports that are not forwarded, pass.
pub proof fn law_right_exposes_pass(
    exposes: Seq<KulfiExpose>,
    forwards: Seq<PortMapping>,
    r: Result<(), ExposesError>,
)
    requires
        exposes_checked(exposes, forwards, r),
        forall|k: int|
            0 <= k < exposes.len() ==> exists|i: int|
                0 <= i < forwards.len() && (#[trigger] forwards[i]).host_port == (
                #[trigger] exposes[k]).host_port,
        forall|i: int, k: int|
            0 <= i < k < exposes.len() ==> (#[trigger] exposes[i]).host_port != (
            #[trigger] exposes[k]).host_port || exposes[i].protocol != exposes[k].protocol,
        forall|i: int, k: int|
            0 <= i < k < exposes.len() && (#[trigger] exposes[i]).bridge_port is Some
                ==> exposes[i].bridge_port != (#[trigger] exposes[k]).bridge_port,
        forall|i: int, k: int|
            0 <= k < exposes.len() && 0 <= i < forwards.len() ==> (
            #[trigger] exposes[k]).bridge_port != Some((#[trigger] forwards[i]).host_port),
    ensures
        r is Ok,
{
    law_exposes_are_refused_for_a_reason(exposes, forwards, r);
}

/// A bridge listens at the port that was asked for; without one it lets the system choose
/// for HTTP, and takes the port that was allocated for TCP.
pub proof fn law_bridges_listen_where_asked(expose: KulfiExpose, allocated: u16)
    ensures
        expose.bridge_port matches Some(port) ==> bridge_port_of(expose, allocated) == port,
        expose.bridge_port is None && expose.protocol == KulfiProtocol::Http ==> bridge_port_of(
            expose,
            allocated,
        ) == 0,
        expose.bridge_port is None && expose.protocol == KulfiProtocol::Tcp ==> bridge_port_of(
            expose,
            allocated,
        ) == allocated,
{
}

/// A request is for the peer that the first label of its host names. A bridge with a
/// target takes its own name and a loopback address for the target and refuses any other;
/// one without takes any name of 52 bytes. A host without a "." names nobody.
pub proof fn law_hosts_name_peers(
    label: Seq<char>,
    rest: Seq<char>,
    target: Option<Seq<char>>,
)
    requires
        !label.contains('.'),
    ensures
        ({
            let host = Some(label + seq!['.'] + rest);
            match target {
                Some(t) => peer_of(host, target) == (if label == "127"@ || label == t {
                    Ok::<Seq<char>, PeerError>(t)
                } else {
                    Err(PeerError::InvalidPeer)
                }),
                None => peer_of(host, target) == (if encode_utf8(label).len() == 52 {
                    Ok::<Seq<char>, PeerError>(label)
                } else {
                    Err(PeerError::InvalidPeer)
                }),
            }
        }),
        peer_of(Some(label), target) == Err::<Seq<char>, PeerError>(PeerError::NoHost),
        peer_of(None, target) == Err::<Seq<char>, PeerError>(PeerError::NoHost),
{
    law_cut_again(label, '.', rest);
}

/// What is said of a tunnel names the port that it leads to and the port that its bridge
/// listens at, and for HTTP the public address of this host.
pub proof fn law_tunnels_are_announced(
    expose: KulfiExpose,
    bound_port: u16,
    id52: Seq<char>,
    domain: Seq<char>,
)
    ensures
        ({
            let t = tunnel_texts(expose, bound_port, id52, domain);
            match expose.protocol {
                KulfiProtocol::Http => t.0 == "shuru: kulfi http bridge for "@ + ("127.0.0.1:"@
                    + decimal_text(expose.host_port as nat)) + " at http://"@ + ("127.0.0.1:"@
                    + decimal_text(bound_port as nat)) && t.1
                    == "shuru: kulfi public URL (bridge-dependent) https://"@ + id52 + "."@ + domain,
                KulfiProtocol::Tcp => t.0 == "shuru: kulfi tcp bridge for "@ + ("127.0.0.1:"@
                    + decimal_text(expose.host_port as nat)) + " at "@ + ("127.0.0.1:"@
                    + decimal_text(bound_port as nat)) && t.1
                    == "shuru: connect locally with: nc 127.0.0.1 "@ + decimal_text(
                    bound_port as nat,
                ),
            }
        }),
{
}

/// The key of this host is kept below the data directory, and a text is read as the key
/// that it stands for or refused with the reason.
pub proof fn law_the_key_has_its_place(data_dir: Seq<char>, key: [u8; 32], why: String)
    ensures
        data_dir.len() > 0 && data_dir.last() != '/' ==> secret_key_path_text(data_dir) == data_dir
            + "/"@ + "kulfi"@ + "/"@ + "secret-key"@,
        data_dir.len() > 0 && data_dir.last() == '/' ==> secret_key_path_text(data_dir) == data_dir
            + "kulfi"@ + "/"@ + "secret-key"@,
        key_view(Ok(key)) == Ok::<Seq<u8>, Seq<char>>(key@),
        key_view(Err(why)) == Err::<Seq<u8>, Seq<char>>(why@),
{
    reveal_strlit("kulfi");
}

/// A message says what is wrong with a tunnel and names it.
pub proof fn law_tunnel_messages_name_the_tunnel(
    text: String,
    port: u16,
    protocol: KulfiProtocol,
)
    ensures
        expose_error_text(ExposeError::Format)
            == "expected HOST_PORT:http|tcp[:BRIDGE_PORT] format"@,
        peer_error_text(PeerError::NoHost) == "got http request without Host header"@,
        peer_error_text(PeerError::InvalidPeer) == "got http request with invalid peer id"@,
        expose_error_text(ExposeError::HostPort { text }) == "invalid host port: '"@ + text@
            + "'"@,
        expose_error_text(ExposeError::Protocol { name: text }) == "invalid protocol '"@ + text@
            + "': expected 'http' or 'tcp'"@,
        expose_error_text(ExposeError::BridgePort { text }) == "invalid bridge port: '"@ + text@
            + "'"@,
        exposes_error_text(ExposesError::BridgeTaken { port }) == "kulfi bridge port "@
            + decimal_text(port as nat) + " conflicts with an existing -p/--port host listener"@,
        exposes_error_text(ExposesError::BridgeTwice { port })
            == "duplicate explicit kulfi bridge port "@ + decimal_text(port as nat),
        ({
            let name = match protocol {
                KulfiProtocol::Http => "http"@,
                KulfiProtocol::Tcp => "tcp"@,
            };
            &&& exposes_error_text(ExposesError::NoForward { port, protocol }) == "--kulfi "@
                + decimal_text(port as nat) + ":"@ + name
                + " requires a matching -p/--port forward for host port "@ + decimal_text(
                port as nat,
            )
            &&& exposes_error_text(ExposesError::Duplicate { port, protocol })
                == "duplicate --kulfi mapping for host port "@ + decimal_text(port as nat) + " ("@
                + name + ")"@
        }),
        key_error_text(KeyError::Invalid { path: text, cause: text })
            == "failed to parse Kulfi secret key at "@ + text@,
        key_error_text(KeyError::Unreadable { path: text })
            == "failed to read Kulfi secret key from "@ + text@,
{
}

/// A tunnel flag has two or three parts: a port, a protocol and perhaps another port. The
/// first part that is wrong is reported.
pub proof fn law_wrong_exposes_are_reported(
    a: Seq<char>,
    b: Seq<char>,
    c: Seq<char>,
    rest: Seq<char>,
    r: Result<KulfiExpose, ExposeError>,
)
    requires
        !a.contains(':'),
        !b.contains(':'),
        !c.contains(':'),
    ensures
        ({
            let two = a + seq![':'] + b;
            let three = a + seq![':'] + (b + seq![':'] + c);
            let four = a + seq![':'] + (b + seq![':'] + (c + seq![':'] + rest));
            let format = Err::<KulfiExpose, _>(ExposeError::Format);
            let port = unsigned_number(a, 65535) is Some;
            let protocol = b == "http"@ || b == "tcp"@;
            &&& is_expose(a, r) ==> r == format
            &&& is_expose(four, r) ==> r == format
            &&& expose_of(a) is None && expose_of(four) is None
            &&& is_expose(two, r) || is_expose(three, r) ==> {
                &&& r != format
                &&& !port ==> (r matches Err(ExposeError::HostPort { text }) && text@ == a)
                &&& port && !protocol ==> (r matches Err(ExposeError::Protocol { name }) && name@
                    == b)
            }
            &&& is_expose(two, r) && port && protocol ==> r is Ok
            &&& is_expose(three, r) && port && protocol && unsigned_number(c, 65535) is None ==> (
            r matches Err(ExposeError::BridgePort { text }) && text@ == c)
            &&& is_expose(three, r) && port && protocol && unsigned_number(c, 65535) is Some
                ==> r is Ok
        }),
{
    let three = b + seq![':'] + c;
    let four = c + seq![':'] + rest;
    law_cut_again(a, ':', b);
    law_cut_again(a, ':', three);
    law_cut_again(a, ':', b + seq![':'] + four);
    law_cut_again(b, ':', c);
    law_cut_again(b, ':', four);
    law_cut_again(c, ':', rest);
    crate::text::law_cut_all(rest, ':');
    assert(cut_all(a + seq![':'] + b, ':') =~= seq![a, b]);
    assert(cut_all(a + seq![':'] + three, ':') =~= seq![a, b, c]);
    assert(cut_all(a + seq![':'] + (b + seq![':'] + four), ':').len() >= 4);
}

} // verus!
