use shuru::stack::{
    gateway_mac, poll_wait, ConnectionId, NetworkStack, StackCommand, StackEvent, GATEWAY_IP,
    PREFIX_LEN,
};
use shuru::wire::{parse_syn_dst, Destination};
use smoltcp::iface::{Config, Interface, SocketHandle, SocketSet};
use smoltcp::phy::{Device, DeviceCapabilities, Medium, RxToken, TxToken};
use smoltcp::socket::{tcp, udp, Socket};
use smoltcp::time::Instant;
use smoltcp::wire::{
    EthernetAddress, HardwareAddress, IpAddress, IpCidr, IpEndpoint, Ipv4Address,
};
use std::collections::VecDeque;

/// One end of a cable.
struct Cable {
    inbox: VecDeque<Vec<u8>>,
    outbox: Vec<Vec<u8>>,
}

struct Incoming {
    frame: Vec<u8>,
}

struct Leaving<'a> {
    outbox: &'a mut Vec<Vec<u8>>,
}

impl RxToken for Incoming {
    fn consume<R, F: FnOnce(&[u8]) -> R>(self, f: F) -> R {
        f(&self.frame)
    }
}

impl<'a> TxToken for Leaving<'a> {
    fn consume<R, F: FnOnce(&mut [u8]) -> R>(self, len: usize, f: F) -> R {
        let mut frame = vec![0u8; len];
        let r = f(&mut frame);
        self.outbox.push(frame);
        r
    }
}

impl Device for Cable {
    type RxToken<'a> = Incoming;
    type TxToken<'a> = Leaving<'a>;

    fn receive(&mut self, _now: Instant) -> Option<(Incoming, Leaving<'_>)> {
        let frame = self.inbox.pop_front()?;
        Some((Incoming { frame }, Leaving { outbox: &mut self.outbox }))
    }

    fn transmit(&mut self, _now: Instant) -> Option<Leaving<'_>> {
        Some(Leaving { outbox: &mut self.outbox })
    }

    fn capabilities(&self) -> DeviceCapabilities {
        let mut caps = DeviceCapabilities::default();
        caps.medium = Medium::Ethernet;
        caps.max_transmission_unit = 1514;
        caps
    }
}

fn interface(cable: &mut Cable, mac: [u8; 6], ip: u32, any_ip: bool) -> Interface {
    let config = Config::new(HardwareAddress::Ethernet(EthernetAddress(mac)));
    let mut iface = Interface::new(config, cable, Instant::from_millis(0));
    let cidr = IpCidr::new(IpAddress::Ipv4(Ipv4Address::from(ip)), PREFIX_LEN);
    iface.update_ip_addrs(|addrs| addrs.push(cidr).unwrap());
    iface.set_any_ip(any_ip);
    iface.routes_mut().add_default_ipv4_route(Ipv4Address::from(GATEWAY_IP)).unwrap();
    iface
}

/// A guest with sockets of its own, and the stack at the other end of its cable.
struct World {
    clock: i64,
    guest: Cable,
    guest_iface: Interface,
    guest_sockets: SocketSet<'static>,
    host: Cable,
    host_iface: Interface,
    stack: NetworkStack,
    events: Vec<StackEvent>,
}

impl World {
    fn new() -> World {
        let mut guest = Cable { inbox: VecDeque::new(), outbox: vec![] };
        let mut host = Cable { inbox: VecDeque::new(), outbox: vec![] };
        let guest_iface = interface(&mut guest, [2, 0, 0, 0, 0, 2], 0x0a000002, false);
        let host_iface = interface(&mut host, gateway_mac(), GATEWAY_IP, true);
        World {
            clock: 1,
            guest,
            guest_iface,
            guest_sockets: SocketSet::new(vec![]),
            host,
            host_iface,
            stack: NetworkStack::new(),
            events: vec![],
        }
    }

    fn connect(&mut self, ip: u32, port: u16, local_port: u16) -> SocketHandle {
        let mut socket = tcp::Socket::new(
            tcp::SocketBuffer::new(vec![0u8; 8192]),
            tcp::SocketBuffer::new(vec![0u8; 8192]),
        );
        socket
            .connect(
                self.guest_iface.context(),
                (IpAddress::Ipv4(Ipv4Address::from(ip)), port),
                local_port,
            )
            .unwrap();
        self.guest_sockets.add(socket)
    }

    /// One round: the guest runs, then the stack.
    fn round(&mut self) {
        self.clock += 20;
        let now = Instant::from_millis(self.clock);
        self.guest_iface.poll(now, &mut self.guest, &mut self.guest_sockets);
        let frames: Vec<Vec<u8>> = self.guest.outbox.drain(..).collect();
        self.stack.inspect_pending_frames(&frames);
        self.host.inbox.extend(frames);
        self.host_iface.poll(now, &mut self.host, self.stack.sockets_mut());
        self.events.extend(self.stack.poll_tcp_sockets());
        self.stack.drain_pending_sends();
        self.events.extend(self.stack.poll_dns_socket());
        self.host_iface.poll(now, &mut self.host, self.stack.sockets_mut());
        self.guest.inbox.extend(self.host.outbox.drain(..));
    }

    fn rounds(&mut self, n: usize) {
        for _ in 0..n {
            self.round();
        }
    }

    fn opened(&self) -> Vec<(ConnectionId, Destination)> {
        let mut r = vec![];
        for e in &self.events {
            if let StackEvent::NewConnection(c) = e {
                r.push((c.id, c.dst));
            }
        }
        r
    }

    fn data_of(&self, wanted: ConnectionId) -> Vec<u8> {
        let mut r = vec![];
        for e in &self.events {
            if let StackEvent::Data { id, payload } = e {
                if *id == wanted {
                    r.extend(payload);
                }
            }
        }
        r
    }
}

const WEB: u32 = 0x5db8d822;

#[test]
fn a_connection_goes_where_the_guest_wanted() {
    let mut world = World::new();
    let guest = world.connect(WEB, 443, 50000);
    world.rounds(10);
    assert_eq!(world.opened().len(), 1);
    let (id, dst) = world.opened()[0];
    assert_eq!(dst, Destination { ip: WEB, port: 443 });
    let socket = world.guest_sockets.get_mut::<tcp::Socket>(guest);
    assert_eq!(socket.send_slice(b"GET / HTTP/1.1\r\n").unwrap(), 16);
    world.rounds(10);
    assert_eq!(world.data_of(id), b"GET / HTTP/1.1\r\n");
    assert!(matches!(world.events[0], StackEvent::NewConnection(_)));
}

#[test]
fn connections_to_one_destination_do_not_block_each_other() {
    let mut world = World::new();
    for port in 0..5u16 {
        world.connect(WEB, 80, 50000 + port);
    }
    world.rounds(20);
    let opened = world.opened();
    assert_eq!(opened.len(), 5);
    for (i, (id, dst)) in opened.iter().enumerate() {
        assert_eq!(*dst, Destination { ip: WEB, port: 80 });
        for (other, _) in &opened[i + 1..] {
            assert_ne!(id, other);
        }
    }
}

#[test]
fn data_is_not_lost_when_a_connection_is_closed() {
    let mut world = World::new();
    let guest = world.connect(WEB, 80, 50000);
    world.rounds(10);
    let (id, _) = world.opened()[0];
    // More than the socket has room for, so most of it waits when the close comes.
    let payload: Vec<u8> = (0..200_000u32).map(|i| (i % 251) as u8).collect();
    world.stack.process_command(StackCommand::Send { id, payload: payload[..150_000].to_vec() });
    world.stack.process_command(StackCommand::Send { id, payload: payload[150_000..].to_vec() });
    world.stack.process_command(StackCommand::Close { id });
    let mut read: Vec<u8> = vec![];
    for _ in 0..2000 {
        world.round();
        let socket = world.guest_sockets.get_mut::<tcp::Socket>(guest);
        while socket.can_recv() {
            let mut buffer = [0u8; 4096];
            let n = socket.recv_slice(&mut buffer).unwrap();
            read.extend(&buffer[..n]);
        }
        if !socket.may_recv() {
            break;
        }
    }
    assert_eq!(read.len(), payload.len());
    assert!(read == payload);
    let socket = world.guest_sockets.get_mut::<tcp::Socket>(guest);
    assert_eq!(socket.state(), tcp::State::CloseWait);
}

#[test]
fn a_connection_that_the_guest_resets_is_reported_closed() {
    let mut world = World::new();
    let guest = world.connect(WEB, 80, 50000);
    world.rounds(10);
    let (id, _) = world.opened()[0];
    let socket = world.guest_sockets.get_mut::<tcp::Socket>(guest);
    socket.send_slice(b"last words").unwrap();
    world.rounds(3);
    world.guest_sockets.get_mut::<tcp::Socket>(guest).abort();
    world.rounds(5);
    assert_eq!(world.data_of(id), b"last words");
    match world.events.last().unwrap() {
        StackEvent::Closed { id: closed } => assert_eq!(*closed, id),
        _ => panic!("the connection is over"),
    }
}

#[test]
fn a_later_connection_is_not_taken_for_one_that_was_to_be_closed() {
    let mut world = World::new();
    let guest = world.connect(WEB, 80, 50000);
    world.rounds(10);
    let (id, _) = world.opened()[0];
    // Too much to get out before the guest gives up.
    world.stack.process_command(StackCommand::Send { id, payload: vec![7; 200_000] });
    world.stack.process_command(StackCommand::Close { id });
    world.rounds(3);
    world.guest_sockets.get_mut::<tcp::Socket>(guest).abort();
    world.rounds(5);
    assert!(matches!(world.events.last().unwrap(), StackEvent::Closed { .. }));
    let second = world.connect(WEB, 80, 50001);
    world.rounds(10);
    let (again, _) = world.opened()[1];
    assert_eq!(again, id);
    world.stack.process_command(StackCommand::Send { id: again, payload: b"hello".to_vec() });
    world.rounds(10);
    let socket = world.guest_sockets.get_mut::<tcp::Socket>(second);
    let mut buffer = [0u8; 16];
    assert_eq!(socket.recv_slice(&mut buffer).unwrap(), 5);
    assert_eq!(socket.state(), tcp::State::Established);
}

#[test]
fn a_socket_listens_where_the_guest_wants_to_go() {
    let mut stack = NetworkStack::new();
    let web = Destination { ip: WEB, port: 443 };
    let other = Destination { ip: 0x01020304, port: 22 };
    stack.inspect_pending_frames(&vec![
        tcp_frame(web, 0x02),
        tcp_frame(other, 0x02),
        tcp_frame(web, 0x10),
    ]);
    let mut ends = vec![];
    for (_, socket) in stack.sockets().iter() {
        match socket {
            Socket::Tcp(tcp) => {
                assert_eq!(tcp.recv_capacity(), 65536);
                assert_eq!(tcp.send_capacity(), 65536);
                let end = tcp.listen_endpoint();
                ends.push((end.addr.unwrap(), end.port));
            }
            Socket::Udp(udp) => {
                assert_eq!(udp.packet_recv_capacity(), 16);
                assert_eq!(udp.packet_send_capacity(), 16);
                assert_eq!(udp.payload_recv_capacity(), 4096);
                assert_eq!(udp.payload_send_capacity(), 4096);
            }
            _ => panic!("the stack has no other sockets"),
        }
    }
    let addr = |d: Destination| (IpAddress::Ipv4(Ipv4Address::from(d.ip)), d.port);
    assert_eq!(ends, vec![addr(web), addr(other)]);
}

#[test]
fn a_close_with_nothing_to_send_happens_at_once() {
    let mut world = World::new();
    let guest = world.connect(WEB, 80, 50000);
    world.rounds(10);
    let (id, _) = world.opened()[0];
    world.stack.process_command(StackCommand::Close { id });
    world.rounds(5);
    let socket = world.guest_sockets.get_mut::<tcp::Socket>(guest);
    assert_eq!(socket.state(), tcp::State::CloseWait);
}

#[test]
fn the_name_service_answers_at_the_gateway() {
    let mut world = World::new();
    let rx = udp::PacketBuffer::new(vec![udp::PacketMetadata::EMPTY; 4], vec![0u8; 1024]);
    let tx = udp::PacketBuffer::new(vec![udp::PacketMetadata::EMPTY; 4], vec![0u8; 1024]);
    let mut socket = udp::Socket::new(rx, tx);
    socket.bind(5353).unwrap();
    let to = IpEndpoint { addr: IpAddress::Ipv4(Ipv4Address::from(GATEWAY_IP)), port: 53 };
    socket.send_slice(b"who is example.com", to).unwrap();
    socket.send_slice(b"who is example.org", to).unwrap();
    let guest = world.guest_sockets.add(socket);
    world.rounds(5);
    let mut queries = vec![];
    for e in world.events.drain(..) {
        if let StackEvent::DnsQuery { src, payload } = e {
            queries.push((src, payload));
        }
    }
    assert_eq!(queries.len(), 2);
    assert_eq!(queries[0].0, Destination { ip: 0x0a000002, port: 5353 });
    assert_eq!(queries[0].1, b"who is example.com");
    assert_eq!(queries[1].1, b"who is example.org");
    let dst = queries[0].0;
    let payload = b"93.184.216.34".to_vec();
    world.stack.process_command(StackCommand::DnsResponse { dst, payload });
    // No one can be answered at port 0.
    let nowhere = Destination { ip: 0x0a000002, port: 0 };
    world.stack.process_command(StackCommand::DnsResponse { dst: nowhere, payload: vec![1] });
    // Nor is an answer that the buffer has no room for.
    world.stack.process_command(StackCommand::DnsResponse { dst, payload: vec![2; 4097] });
    world.rounds(3);
    let socket = world.guest_sockets.get_mut::<udp::Socket>(guest);
    let mut buffer = [0u8; 64];
    let (n, meta) = socket.recv_slice(&mut buffer).unwrap();
    assert_eq!(&buffer[..n], b"93.184.216.34");
    assert_eq!(meta.endpoint.port, 53);
    assert!(!socket.can_recv());
}

#[test]
fn the_stack_waits_a_little() {
    assert_eq!(poll_wait(None), 1_000);
    assert_eq!(poll_wait(Some(0)), 1_000);
    assert_eq!(poll_wait(Some(7)), 7);
    assert_eq!(poll_wait(Some(1_000_000)), 50_000);
}

/// A frame with a TCP segment: `flags` are the low byte of the TCP flags.
fn tcp_frame(dst: Destination, flags: u8) -> Vec<u8> {
    let mut f = vec![0u8; 54];
    f[12] = 0x08;
    f[14] = 0x45;
    f[17] = 40;
    f[23] = 6;
    f[30..34].copy_from_slice(&dst.ip.to_be_bytes());
    f[36..38].copy_from_slice(&dst.port.to_be_bytes());
    f[46] = 0x50;
    f[47] = flags;
    f
}

#[test]
fn only_a_syn_opens_a_connection() {
    let dst = Destination { ip: WEB, port: 443 };
    assert_eq!(parse_syn_dst(&tcp_frame(dst, 0x02)), Some(dst));
    assert_eq!(parse_syn_dst(&tcp_frame(dst, 0x12)), None);
    assert_eq!(parse_syn_dst(&tcp_frame(dst, 0x10)), None);
    assert_eq!(parse_syn_dst(&[]), None);
    assert_eq!(parse_syn_dst(&tcp_frame(dst, 0x02)[..53]), None);
    let mut f = tcp_frame(dst, 0x02);
    f[13] = 0x06;
    assert_eq!(parse_syn_dst(&f), None);
    let mut f = tcp_frame(dst, 0x02);
    f[23] = 17;
    assert_eq!(parse_syn_dst(&f), None);
    let mut f = tcp_frame(dst, 0x02);
    f[46] = 0x40;
    assert_eq!(parse_syn_dst(&f), None);
    // A header with options moves the segment.
    let mut f = tcp_frame(dst, 0x02);
    f[14] = 0x46;
    f[17] = 44;
    for _ in 0..4 {
        f.insert(34, 0);
    }
    assert_eq!(parse_syn_dst(&f), Some(dst));
    // A header that is longer than the packet does not fit.
    let mut f = tcp_frame(dst, 0x02);
    f[17] = 19;
    assert_eq!(parse_syn_dst(&f), None);
}

#[test]
fn port_zero_is_not_waited_for() {
    let mut stack = NetworkStack::new();
    let zero = tcp_frame(Destination { ip: WEB, port: 0 }, 0x02);
    let web = tcp_frame(Destination { ip: WEB, port: 80 }, 0x02);
    let other = tcp_frame(Destination { ip: WEB, port: 81 }, 0x02);
    stack.inspect_pending_frames(&vec![zero.clone(), web.clone(), web.clone(), other, zero]);
    // The name service and a socket for each of the three that can be waited for.
    assert_eq!(stack.sockets().iter().count(), 4);
    stack.inspect_pending_frames(&vec![web.clone()]);
    assert_eq!(stack.sockets().iter().count(), 4);
    stack.inspect_pending_frames(&vec![web.clone(), web.clone(), web]);
    assert_eq!(stack.sockets().iter().count(), 5);
}
