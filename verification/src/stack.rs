//! The network stack between the guest and the proxy.
//!
//! Every TCP connection that the guest opens is accepted here, whatever its
//! destination, and handed to the proxy as events; the proxy answers with commands.
//! The stack's state is modelled by a [`StackModel`].

use crate::handles::HandleMap;
use crate::sockets::{
    add_tcp, add_udp, listener, new_set, new_tcp, new_udp, remove_tcp, set_grows, tcp_can_recv,
    tcp_can_send, tcp_close, tcp_is_active, tcp_is_open, tcp_listen, tcp_local, tcp_may_recv,
    tcp_may_send, tcp_mut, tcp_recv, tcp_send, tcp_sockets, tcp_view, udp_bind, udp_can_recv,
    udp_mut, udp_recv, udp_send, udp_sockets, udp_view, TcpState, TcpView, UdpView,
};
use crate::wire::{parse_syn_dst, syn_dst, Destination};
use smoltcp::iface::{SocketHandle, SocketSet};
use vstd::prelude::*;

verus! {

/// Gateway IP inside the virtual network, 10.0.0.1.
pub const GATEWAY_IP: u32 = 0x0a00_0001;

/// The length of the virtual network's prefix.
pub const PREFIX_LEN: u8 = 24;

/// The port of the name service.
pub const DNS_PORT: u16 = 53;

/// The size of a connection's receive buffer, and of what is read from it at once.
pub const TCP_RX_BUF_SIZE: usize = 65536;

/// The size of a connection's transmit buffer.
pub const TCP_TX_BUF_SIZE: usize = 65536;

/// How many datagrams the name service's buffers hold.
pub const DNS_PACKETS: usize = 16;

/// How many bytes the name service's buffers hold, and a query may have.
pub const DNS_BYTES: usize = 4096;

/// Gateway MAC address (locally administered).
pub fn gateway_mac() -> (r: [u8; 6])
    ensures
        r@ == seq![0x02u8, 0, 0, 0, 0, 0x01],
{
    let r: [u8; 6] = [0x02, 0x00, 0x00, 0x00, 0x00, 0x01];
    assert(r@ =~= seq![0x02u8, 0, 0, 0, 0, 0x01]);
    r
}

/// Opaque handle to a guest-side TCP connection.
#[derive(Debug, Clone, Copy, PartialEq, Eq, Hash)]
pub struct ConnectionId(SocketHandle);

impl ConnectionId {
    /// The handle of the connection's socket.
    pub closed spec fn handle(self) -> SocketHandle {
        self.0
    }
}

/// A new TCP connection from the guest, ready to be proxied.
#[derive(Debug)]
pub struct TcpConnection {
    pub id: ConnectionId,
    pub dst: Destination,
}

/// Events from the network stack to the proxy engine.
#[derive(Debug)]
pub enum StackEvent {
    /// A new TCP connection was established from the guest.
    NewConnection(TcpConnection),
    /// Data received from the guest on an established connection.
    Data { id: ConnectionId, payload: Vec<u8> },
    /// Guest closed the connection.
    Closed { id: ConnectionId },
    /// A DNS query arrived on UDP port 53.
    DnsQuery { src: Destination, payload: Vec<u8> },
}

/// Commands from the proxy engine back to the network stack.
#[derive(Debug)]
pub enum StackCommand {
    /// Send data to the guest on an established connection.
    Send { id: ConnectionId, payload: Vec<u8> },
    /// Close a connection from the host side.
    Close { id: ConnectionId },
    /// Send a DNS response back to the guest.
    DnsResponse { dst: Destination, payload: Vec<u8> },
}

/// What an event says.
pub enum EventView {
    Opened { handle: SocketHandle, dst: Destination },
    Data { handle: SocketHandle, payload: Seq<u8> },
    Closed { handle: SocketHandle },
    Query { src: Destination, payload: Seq<u8> },
}

/// What an event says.
pub open spec fn event_view(e: StackEvent) -> EventView {
    match e {
        StackEvent::NewConnection(c) => EventView::Opened { handle: c.id.handle(), dst: c.dst },
        StackEvent::Data { id, payload } => EventView::Data {
            handle: id.handle(),
            payload: payload@,
        },
        StackEvent::Closed { id } => EventView::Closed { handle: id.handle() },
        StackEvent::DnsQuery { src, payload } => EventView::Query { src, payload: payload@ },
    }
}

/// What events say.
pub open spec fn event_views(events: Seq<StackEvent>) -> Seq<EventView> {
    Seq::new(events.len(), |i: int| event_view(events[i]))
}

/// The state of the network stack.
#[verifier::ext_equal]
pub struct StackModel {
    /// The TCP sockets.
    pub sockets: Map<SocketHandle, TcpView>,
    /// The sockets that wait for a connection, and where it is to go.
    pub listening: Map<SocketHandle, Destination>,
    /// The connections that the proxy knows of, and where they go.
    pub connections: Map<SocketHandle, Destination>,
    /// Data for the guest that its socket had no room for yet.
    pub pending: Map<SocketHandle, Seq<u8>>,
    /// The connections to close once their data is out.
    pub closing: Set<SocketHandle>,
}

impl StackModel {
    /// The data for the guest that the connection's socket had no room for yet.
    pub open spec fn pending_of(self, h: SocketHandle) -> Seq<u8> {
        if self.pending.dom().contains(h) {
            self.pending[h]
        } else {
            Seq::empty()
        }
    }

    /// Whether every handle that is waited or known of has its socket, and no
    /// handle is both.
    pub open spec fn tracks(self) -> bool {
        &&& self.listening.dom().subset_of(self.sockets.dom())
        &&& self.connections.dom().subset_of(self.sockets.dom())
        &&& self.listening.dom().disjoint(self.connections.dom())
    }

    /// Whether every handle that data waits for has its socket.
    pub open spec fn can_drain(self) -> bool {
        self.pending.dom().subset_of(self.sockets.dom())
    }

    /// Whether a connection that came in at a waiting socket goes where that socket
    /// waited for it.
    pub open spec fn listeners_match(self) -> bool {
        forall|h: SocketHandle|
            #[trigger] self.listening.dom().contains(h) && self.sockets[h].is_active()
                && self.sockets[h].local is Some ==> self.sockets[h].local == Some(
                self.listening[h],
            )
    }

    /// Whether every socket that waits for a connection listens where the connection is
    /// to go.
    pub open spec fn listens_where_it_waits(self) -> bool {
        forall|h: SocketHandle| #[trigger]
            self.listening.dom().contains(h) ==> self.sockets[h].listens == Some(self.listening[h])
    }

    /// Whether data still waits for every connection that is to be closed.
    pub open spec fn closing_waits(self) -> bool {
        forall|h: SocketHandle| #[trigger]
            self.closing.contains(h) ==> self.pending_of(h).len() > 0
    }

    /// After data for the guest came in.
    pub open spec fn after_send(self, h: SocketHandle, payload: Seq<u8>) -> StackModel {
        StackModel { pending: self.pending.insert(h, self.pending_of(h) + payload), ..self }
    }

    /// After the host ended its half of a connection.
    pub open spec fn after_shut(self, h: SocketHandle) -> StackModel {
        StackModel {
            sockets: self.sockets.insert(h, self.sockets[h].closed()),
            connections: self.connections.remove(h),
            pending: self.pending.remove(h),
            ..self
        }
    }

    /// After the proxy asked to close a connection: it is closed at once, or later
    /// if data for the guest still waits.
    pub open spec fn after_close(self, h: SocketHandle) -> StackModel {
        if self.pending_of(h).len() == 0 {
            self.after_shut(h)
        } else {
            StackModel { closing: self.closing.insert(h), ..self }
        }
    }

    /// How much of the connection's waiting data its socket takes.
    pub open spec fn accepted(self, h: SocketHandle) -> nat {
        if self.sockets[h].can_send() {
            self.sockets[h].room_for(self.pending_of(h).len())
        } else {
            0
        }
    }

    /// Whether the connection is to be closed and its socket takes all that waits.
    pub open spec fn finishes(self, h: SocketHandle) -> bool {
        self.closing.contains(h) && self.pending.dom().contains(h) && self.accepted(h)
            == self.pending[h].len()
    }

    /// The socket after it took what it had room for, and was closed if that was to
    /// be done.
    pub open spec fn drained_socket(self, h: SocketHandle) -> TcpView {
        let s = TcpView {
            tx: self.sockets[h].tx + self.pending_of(h).take(self.accepted(h) as int),
            ..self.sockets[h]
        };
        if self.finishes(h) {
            s.closed()
        } else {
            s
        }
    }

    /// Whether a connection came in at a socket and the proxy does not know it yet.
    pub open spec fn opens(self, h: SocketHandle) -> bool {
        self.sockets[h].is_active() && self.sockets[h].local is Some
            && !self.connections.dom().contains(h)
    }

    /// Whether the proxy knows of the connection, or is told now.
    pub open spec fn connected(self, h: SocketHandle) -> bool {
        self.connections.dom().contains(h) || self.opens(h)
    }

    /// Where the connection goes.
    pub open spec fn dst_of(self, h: SocketHandle) -> Destination {
        if self.connections.dom().contains(h) {
            self.connections[h]
        } else {
            self.sockets[h].local->0
        }
    }

    /// What is read of the data that the guest sent on the connection.
    pub open spec fn taken(self, h: SocketHandle) -> Seq<u8> {
        let rx = self.sockets[h].rx;
        if self.connected(h) && rx.len() > TCP_RX_BUF_SIZE {
            rx.take(TCP_RX_BUF_SIZE as int)
        } else if self.connected(h) {
            rx
        } else {
            Seq::empty()
        }
    }

    /// The socket after data was read from it.
    pub open spec fn read_socket(self, h: SocketHandle) -> TcpView {
        TcpView {
            rx: self.sockets[h].rx.skip(self.taken(h).len() as int),
            ..self.sockets[h]
        }
    }

    /// Whether the connection is over: nothing can be sent, and nothing is left to
    /// be read or can come in.
    pub open spec fn ends(self, h: SocketHandle) -> bool {
        let s = self.read_socket(h);
        self.connected(h) && !s.is_open() && !s.may_recv() && !s.may_send()
    }

    /// What the proxy is told of a socket: a new connection first, then the data, and
    /// last the connection's end.
    pub open spec fn events_of(self, h: SocketHandle) -> Seq<EventView> {
        let opened = if self.opens(h) {
            seq![EventView::Opened { handle: h, dst: self.dst_of(h) }]
        } else {
            Seq::empty()
        };
        let data = if self.taken(h).len() > 0 {
            seq![EventView::Data { handle: h, payload: self.taken(h) }]
        } else {
            Seq::empty()
        };
        let closed = if self.ends(h) {
            seq![EventView::Closed { handle: h }]
        } else {
            Seq::empty()
        };
        opened + data + closed
    }

    /// What the proxy is told of some sockets, in that order.
    pub open spec fn events_of_all(self, order: Seq<SocketHandle>) -> Seq<EventView>
        decreases order.len(),
    {
        if order.len() == 0 {
            Seq::empty()
        } else {
            self.events_of_all(order.drop_last()) + self.events_of(order.last())
        }
    }

    /// After some sockets were looked at: new connections are known, data was read,
    /// and what is over is forgotten, its socket too.
    pub open spec fn after_poll(self, some: Set<SocketHandle>) -> StackModel {
        StackModel {
            sockets: Map::new(
                |h: SocketHandle|
                    self.sockets.dom().contains(h) && !(some.contains(h) && self.ends(h)),
                |h: SocketHandle|
                    if some.contains(h) {
                        self.read_socket(h)
                    } else {
                        self.sockets[h]
                    },
            ),
            listening: Map::new(
                |h: SocketHandle|
                    self.listening.dom().contains(h) && !(some.contains(h) && self.opens(h)
                        && self.listening[h] == self.dst_of(h)),
                |h: SocketHandle| self.listening[h],
            ),
            connections: Map::new(
                |h: SocketHandle|
                    if some.contains(h) {
                        self.connected(h) && !self.ends(h)
                    } else {
                        self.connections.dom().contains(h)
                    },
                |h: SocketHandle| self.dst_of(h),
            ),
            pending: Map::new(
                |h: SocketHandle|
                    self.pending.dom().contains(h) && !(some.contains(h) && self.ends(h)),
                |h: SocketHandle| self.pending[h],
            ),
            closing: self.closing.filter(|h: SocketHandle| !(some.contains(h) && self.ends(h))),
        }
    }

    /// The sockets that wait for connections or have them.
    pub open spec fn watched(self) -> Set<SocketHandle> {
        self.listening.dom() + self.connections.dom()
    }

    /// After the sockets of some connections took what they had room for.
    pub open spec fn after_drain(self, some: Set<SocketHandle>) -> StackModel {
        StackModel {
            sockets: Map::new(
                |h: SocketHandle| self.sockets.dom().contains(h),
                |h: SocketHandle|
                    if some.contains(h) {
                        self.drained_socket(h)
                    } else {
                        self.sockets[h]
                    },
            ),
            connections: Map::new(
                |h: SocketHandle|
                    self.connections.dom().contains(h) && !(some.contains(h) && self.finishes(h)),
                |h: SocketHandle| self.connections[h],
            ),
            pending: Map::new(
                |h: SocketHandle|
                    self.pending.dom().contains(h) && !(some.contains(h) && self.finishes(h)),
                |h: SocketHandle|
                    if some.contains(h) {
                        self.pending[h].skip(self.accepted(h) as int)
                    } else {
                        self.pending[h]
                    },
            ),
            closing: self.closing.filter(
                |h: SocketHandle| !(some.contains(h) && self.finishes(h)),
            ),
            ..self
        }
    }
}

/// Where the frames that open a connection want to go, in order.
pub open spec fn syns_of(frames: Seq<Vec<u8>>) -> Seq<Destination>
    decreases frames.len(),
{
    if frames.len() == 0 {
        Seq::empty()
    } else {
        match syn_dst(frames.last()@) {
            Some(dst) => syns_of(frames.drop_last()).push(dst),
            None => syns_of(frames.drop_last()),
        }
    }
}

/// How often a destination occurs.
pub open spec fn occurrences(s: Seq<Destination>, dst: Destination) -> nat
    decreases s.len(),
{
    if s.len() == 0 {
        0
    } else {
        occurrences(s.drop_last(), dst) + (if s.last() == dst {
            1nat
        } else {
            0nat
        })
    }
}

/// The sockets that wait for connections to a destination.
pub open spec fn listeners(
    listening: Map<SocketHandle, Destination>,
    dst: Destination,
) -> Set<SocketHandle> {
    listening.dom().filter(|h: SocketHandle| listening[h] == dst)
}

/// How many sockets are to wait for connections to a destination: as many as wait
/// already, and one for each frame that opens one. Port 0 cannot be waited for.
pub open spec fn wanted(
    listening: Map<SocketHandle, Destination>,
    syns: Seq<Destination>,
    dst: Destination,
) -> nat {
    if dst.port == 0 || occurrences(syns, dst) <= listeners(listening, dst).len() {
        listeners(listening, dst).len()
    } else {
        occurrences(syns, dst)
    }
}

impl StackModel {
    /// Whether `after` has what this state has, and besides that only new sockets,
    /// each of which waits for connections at the destination that it is kept for.
    pub open spec fn grows_to(self, after: StackModel) -> bool {
        &&& after.connections == self.connections
        &&& after.pending == self.pending
        &&& after.closing == self.closing
        &&& self.sockets.submap_of(after.sockets)
        &&& self.listening.submap_of(after.listening)
        &&& forall|h: SocketHandle|
            #[trigger] after.sockets.dom().contains(h) && !self.sockets.dom().contains(h) ==> {
                &&& after.listening.dom().contains(h)
                &&& after.sockets[h] == listener(
                    after.listening[h],
                    TCP_RX_BUF_SIZE as nat,
                    TCP_TX_BUF_SIZE as nat,
                )
            }
        &&& forall|h: SocketHandle|
            #[trigger] after.listening.dom().contains(h) && !self.listening.dom().contains(h) ==> {
                &&& after.sockets.dom().contains(h)
                &&& !self.sockets.dom().contains(h)
            }
    }
}

/// The queries that are read from the front of a queue, up to one that is too long.
pub open spec fn queries(rx: Seq<(Destination, Seq<u8>)>) -> Seq<EventView>
    decreases rx.len(),
{
    if rx.len() == 0 || rx[0].1.len() > DNS_BYTES {
        Seq::empty()
    } else {
        seq![EventView::Query { src: rx[0].0, payload: rx[0].1 }] + queries(rx.drop_first())
    }
}

/// What is left of a queue of queries. One that is too long is dropped, and what
/// follows it stays for the next time.
pub open spec fn after_queries(rx: Seq<(Destination, Seq<u8>)>) -> Seq<(Destination, Seq<u8>)>
    decreases rx.len(),
{
    if rx.len() == 0 {
        rx
    } else if rx[0].1.len() > DNS_BYTES {
        rx.drop_first()
    } else {
        after_queries(rx.drop_first())
    }
}

fn count_until(syns: &Vec<Destination>, end: usize, dst: Destination) -> (r: usize)
    requires
        end <= syns@.len(),
    ensures
        r == occurrences(syns@.take(end as int), dst),
{
    let mut n: usize = 0;
    let mut i: usize = 0;
    while i < end
        invariant
            i <= end <= syns@.len(),
            n <= i,
            n == occurrences(syns@.take(i as int), dst),
        decreases end - i,
    {
        assert(syns@.take(i + 1).drop_last() =~= syns@.take(i as int));
        if syns[i] == dst {
            n += 1;
        }
        i += 1;
    }
    n
}

/// The bytes that vectors hold.
pub open spec fn bytes_of(m: Map<SocketHandle, Vec<u8>>) -> Map<SocketHandle, Seq<u8>> {
    m.map_values(|v: Vec<u8>| v@)
}

/// The network stack.
pub struct NetworkStack {
    sockets: SocketSet<'static>,
    dns_handle: SocketHandle,
    listening: HandleMap<Destination>,
    connections: HandleMap<Destination>,
    pending: HandleMap<Vec<u8>>,
    closing: HandleMap<()>,
}

impl NetworkStack {
    /// The state of this stack.
    pub closed spec fn model(self) -> StackModel {
        StackModel {
            sockets: tcp_sockets(self.sockets),
            listening: self.listening@,
            connections: self.connections@,
            pending: bytes_of(self.pending@),
            closing: self.closing@.dom(),
        }
    }

    /// Whether the name service has its socket.
    pub closed spec fn has_dns(self) -> bool {
        udp_sockets(self.sockets).dom().contains(self.dns_handle)
    }

    /// The name service's socket.
    pub closed spec fn dns(self) -> UdpView {
        udp_sockets(self.sockets)[self.dns_handle]
    }

    /// The sockets.
    pub closed spec fn socket_set(self) -> SocketSet<'static> {
        self.sockets
    }

    /// Whether the stack can always have one more socket.
    pub closed spec fn can_grow(self) -> bool {
        set_grows(self.sockets)
    }

    /// The handle of the name service's socket.
    pub closed spec fn dns_handle(self) -> SocketHandle {
        self.dns_handle
    }

    /// A stack without connections, whose name service listens at the gateway.
    pub fn new() -> (r: Self)
        ensures
            r.model() == (StackModel {
                sockets: Map::empty(),
                listening: Map::empty(),
                connections: Map::empty(),
                pending: Map::empty(),
                closing: Set::empty(),
            }),
            r.has_dns(),
            r.dns() == (UdpView {
                bound: Some(Destination { ip: GATEWAY_IP, port: DNS_PORT }),
                rx: Seq::empty(),
                tx: Seq::empty(),
                rx_packets: DNS_PACKETS as nat,
                rx_bytes: DNS_BYTES as nat,
                tx_packets: DNS_PACKETS as nat,
                tx_room: DNS_BYTES as int,
            }),
            r.can_grow(),
    {
        let mut sockets = new_set();
        let mut socket = new_udp(DNS_PACKETS, DNS_BYTES);
        let _ = udp_bind(&mut socket, Destination { ip: GATEWAY_IP, port: DNS_PORT });
        let dns_handle = add_udp(&mut sockets, socket);
        let r = NetworkStack {
            sockets,
            dns_handle,
            listening: HandleMap::new(),
            connections: HandleMap::new(),
            pending: HandleMap::new(),
            closing: HandleMap::new(),
        };
        assert(r.model() =~= StackModel {
            sockets: Map::empty(),
            listening: Map::empty(),
            connections: Map::empty(),
            pending: Map::empty(),
            closing: Set::empty(),
        });
        r
    }

    /// The sockets, for the interface to ask when it has to run next.
    pub fn sockets(&self) -> (r: &SocketSet<'static>)
        ensures
            *r == self.socket_set(),
    {
        &self.sockets
    }

    /// The sockets, for the interface to run. It adds none and removes none.
    pub fn sockets_mut(&mut self) -> (r: &mut SocketSet<'static>)
        ensures
            *r == old(self).socket_set(),
            final(self).socket_set() == *final(r),
            final(self).model() == (StackModel {
                sockets: tcp_sockets(*final(r)),
                ..old(self).model()
            }),
            final(self).dns_handle() == old(self).dns_handle(),
            final(self).has_dns() == udp_sockets(*final(r)).dom().contains(old(self).dns_handle()),
            final(self).dns() == udp_sockets(*final(r))[old(self).dns_handle()],
            final(self).can_grow() == set_grows(*final(r)),
    {
        &mut self.sockets
    }

    fn append_pending(&mut self, h: SocketHandle, payload: Vec<u8>)
        ensures
            final(self).model() == old(self).model().after_send(h, payload@),
            final(self).has_dns() == old(self).has_dns(),
            final(self).can_grow() == old(self).can_grow(),
            final(self).dns() == old(self).dns(),
    {
        let ghost m = self.model();
        let mut data = match self.pending.remove(h) {
            Some(data) => data,
            None => Vec::new(),
        };
        let mut more = payload;
        data.append(&mut more);
        self.pending.insert(h, data);
        assert(self.model() =~= m.after_send(h, payload@)) by {
            assert(data@ =~= m.pending_of(h) + payload@);
        }
    }

    fn shut(&mut self, h: SocketHandle)
        requires
            old(self).model().sockets.dom().contains(h),
        ensures
            final(self).model() == old(self).model().after_shut(h),
            final(self).has_dns() == old(self).has_dns(),
            final(self).can_grow() == old(self).can_grow(),
            final(self).dns() == old(self).dns(),
    {
        let ghost m = self.model();
        tcp_close(tcp_mut(&mut self.sockets, h));
        let _ = self.connections.remove(h);
        let _ = self.pending.remove(h);
        assert(self.model() =~= m.after_shut(h));
    }

    /// Carries out a command of the proxy. A connection with data that still waits
    /// for room is closed later, so that the data is not lost.
    pub fn process_command(&mut self, command: StackCommand)
        requires
            match command {
                StackCommand::Send { .. } => true,
                StackCommand::Close { id } => old(self).model().pending_of(id.handle()).len() == 0
                    ==> old(self).model().sockets.dom().contains(id.handle()),
                StackCommand::DnsResponse { .. } => old(self).has_dns(),
            },
        ensures
            match command {
                StackCommand::Send { id, payload } => final(self).model()
                    == old(self).model().after_send(id.handle(), payload@) && final(self).dns()
                    == old(self).dns(),
                StackCommand::Close { id } => final(self).model() == old(self).model().after_close(
                    id.handle(),
                ) && final(self).dns() == old(self).dns(),
                StackCommand::DnsResponse { dst, payload } => final(self).model()
                    == old(self).model() && final(self).dns() == old(self).dns().after_datagram(
                    dst,
                    payload@,
                    final(self).dns().tx_room,
                ),
            },
            final(self).has_dns() == old(self).has_dns(),
            final(self).can_grow() == old(self).can_grow(),
    {
        match command {
            StackCommand::Send { id, payload } => {
                self.append_pending(id.0, payload);
            },
            StackCommand::Close { id } => {
                let h = id.0;
                let waits = match self.pending.get(h) {
                    Some(data) => data.len() > 0,
                    None => false,
                };
                if waits {
                    let ghost m = self.model();
                    self.closing.insert(h, ());
                    assert(self.model() =~= m.after_close(h));
                } else {
                    self.shut(h);
                }
            },
            StackCommand::DnsResponse { dst, payload } => {
                let socket = udp_mut(&mut self.sockets, self.dns_handle);
                let _ = udp_send(socket, payload.as_slice(), dst);
            },
        }
    }

    fn drain(&mut self, h: SocketHandle)
        requires
            old(self).model().pending.dom().contains(h),
            old(self).model().sockets.dom().contains(h),
        ensures
            final(self).model() == old(self).model().after_drain(set![h]),
            final(self).has_dns() == old(self).has_dns(),
            final(self).can_grow() == old(self).can_grow(),
            final(self).dns() == old(self).dns(),
    {
        let ghost m = self.model();
        let mut rest: Vec<u8> = Vec::new();
        if let Some(data) = self.pending.remove(h) {
            rest = data;
        }
        assert(rest@ == m.pending_of(h));
        let socket = tcp_mut(&mut self.sockets, h);
        assert(rest@.skip(0) =~= rest@);
        assert(m.sockets[h].tx + rest@.take(0) =~= m.sockets[h].tx);
        if rest.len() > 0 && tcp_can_send(socket) {
            if let Some(n) = tcp_send(socket, rest.as_slice()) {
                rest = rest.split_off(n);
            }
        }
        assert(rest@ == m.pending_of(h).skip(m.accepted(h) as int));
        let done = rest.len() == 0;
        self.pending.insert(h, rest);
        if done && self.closing.contains(h) {
            let _ = self.closing.remove(h);
            self.shut(h);
        }
        assert(self.model() =~= m.after_drain(set![h]));
    }

    /// Moves waiting data into the sockets that have room, and closes the connections
    /// that were to be closed and have nothing left to send.
    pub fn drain_pending_sends(&mut self)
        requires
            old(self).model().can_drain(),
        ensures
            final(self).model() == old(self).model().after_drain(old(self).model().pending.dom()),
            final(self).has_dns() == old(self).has_dns(),
            final(self).can_grow() == old(self).can_grow(),
            final(self).dns() == old(self).dns(),
    {
        let ghost m = self.model();
        let handles = self.pending.handles();
        let mut i: usize = 0;
        assert(m.after_drain(handles@.take(0).to_set()) =~= m);
        while i < handles.len()
            invariant
                i <= handles@.len(),
                handles@.no_duplicates(),
                handles@.to_set() == m.pending.dom(),
                m.can_drain(),
                self.model() == m.after_drain(handles@.take(i as int).to_set()),
                self.has_dns() == old(self).has_dns(),
                self.can_grow() == old(self).can_grow(),
                self.dns() == old(self).dns(),
            decreases handles@.len() - i,
        {
            let h = handles[i];
            proof {
                lemma_take_to_set(handles@, i as int);
                assert(handles@.to_set().contains(h));
                lemma_drain_one_more(m, handles@.take(i as int).to_set(), h);
            }
            self.drain(h);
            i += 1;
        }
        assert(handles@.take(handles@.len() as int) =~= handles@);
    }

    fn poll(&mut self, h: SocketHandle, events: &mut Vec<StackEvent>)
        requires
            old(self).model().sockets.dom().contains(h),
        ensures
            final(self).model() == old(self).model().after_poll(set![h]),
            event_views(final(events)@) == event_views(old(events)@)
                + old(self).model().events_of(h),
            final(self).has_dns() == old(self).has_dns(),
            final(self).can_grow() == old(self).can_grow(),
            final(self).dns() == old(self).dns(),
    {
        let ghost m = self.model();
        let ghost before = event_views(events@);
        let mut known = self.connections.contains(h);
        let socket = tcp_mut(&mut self.sockets, h);
        if !known && tcp_is_active(socket) {
            if let Some(dst) = tcp_local(socket) {
                let waited = match self.listening.get(h) {
                    Some(d) => *d == dst,
                    None => false,
                };
                if waited {
                    let _ = self.listening.remove(h);
                }
                self.connections.insert(h, dst);
                events.push(
                    StackEvent::NewConnection(TcpConnection { id: ConnectionId(h), dst }),
                );
                known = true;
            }
        }
        let ghost opened = event_views(events@);
        assert(opened =~= before + m.events_of(h).take(if m.opens(h) {
            1int
        } else {
            0
        }));
        let mut over = false;
        assert(m.sockets[h].rx.skip(0) =~= m.sockets[h].rx);
        if known {
            if tcp_can_recv(socket) {
                if let Some(payload) = tcp_recv(socket, TCP_RX_BUF_SIZE) {
                    assert(payload@ =~= m.taken(h));
                    assert(tcp_view(*socket).rx =~= m.read_socket(h).rx);
                    if payload.len() > 0 {
                        events.push(StackEvent::Data { id: ConnectionId(h), payload });
                    }
                }
            }
            assert(tcp_view(*socket) =~= m.read_socket(h));
            over = !tcp_is_open(socket) && !tcp_may_recv(socket) && !tcp_may_send(socket);
        }
        if over {
            let _ = self.connections.remove(h);
            let _ = self.pending.remove(h);
            let _ = self.closing.remove(h);
            events.push(StackEvent::Closed { id: ConnectionId(h) });
            remove_tcp(&mut self.sockets, h);
        }
        assert(event_views(events@) =~= before + m.events_of(h));
        assert(self.model() =~= m.after_poll(set![h]));
    }

    /// Looks at every socket that waits for connections or has them: tells of new
    /// connections, of data that came in, and of connections that are over. The order
    /// of the sockets is left open.
    pub fn poll_tcp_sockets(&mut self) -> (r: Vec<StackEvent>)
        requires
            old(self).model().tracks(),
        ensures
            final(self).model() == old(self).model().after_poll(old(self).model().watched()),
            exists|order: Seq<SocketHandle>|
                order.no_duplicates() && #[trigger] order.to_set() == old(self).model().watched()
                    && event_views(r@) == old(self).model().events_of_all(order),
            final(self).has_dns() == old(self).has_dns(),
            final(self).can_grow() == old(self).can_grow(),
            final(self).dns() == old(self).dns(),
    {
        let ghost m = self.model();
        let mut handles = self.listening.handles();
        let mut known = self.connections.handles();
        let ghost a = handles@;
        let ghost b = known@;
        handles.append(&mut known);
        proof {
            lemma_joined(a, b, handles@);
            assert(handles@.to_set() =~= m.watched());
        }
        let mut events: Vec<StackEvent> = Vec::new();
        let mut i: usize = 0;
        proof {
            assert(handles@.take(0) =~= Seq::empty());
            assert(m.after_poll(handles@.take(0).to_set()) =~= m);
            assert(event_views(events@) =~= Seq::empty());
        }
        while i < handles.len()
            invariant
                i <= handles@.len(),
                handles@.no_duplicates(),
                handles@.to_set() == m.watched(),
                m.tracks(),
                self.model() == m.after_poll(handles@.take(i as int).to_set()),
                event_views(events@) == m.events_of_all(handles@.take(i as int)),
                self.has_dns() == old(self).has_dns(),
                self.can_grow() == old(self).can_grow(),
                self.dns() == old(self).dns(),
            decreases handles@.len() - i,
        {
            let h = handles[i];
            proof {
                lemma_take_to_set(handles@, i as int);
                assert(handles@.to_set().contains(h));
                lemma_poll_one_more(m, handles@.take(i as int).to_set(), h);
                assert(handles@.take(i + 1).drop_last() =~= handles@.take(i as int));
            }
            self.poll(h, &mut events);
            i += 1;
        }
        assert(handles@.take(handles@.len() as int) =~= handles@);
        events
    }

    fn count_listeners(&self, dst: Destination) -> (r: usize)
        ensures
            r == listeners(self.model().listening, dst).len(),
            self.model().listening.dom().finite(),
    {
        let ghost m = self.model().listening;
        let handles = self.listening.handles();
        let mut n: usize = 0;
        let mut i: usize = 0;
        let ghost is_for = |h: SocketHandle| m[h] == dst;
        assert(handles@.take(0).to_set().filter(is_for) =~= Set::empty());
        while i < handles.len()
            invariant
                i <= handles@.len(),
                n <= i,
                handles@.no_duplicates(),
                handles@.to_set() == m.dom(),
                m == self.listening@,
                is_for == (|h: SocketHandle| m[h] == dst),
                n == handles@.take(i as int).to_set().filter(is_for).len(),
            decreases handles@.len() - i,
        {
            let h = handles[i];
            let ghost some = handles@.take(i as int).to_set();
            proof {
                lemma_take_to_set(handles@, i as int);
                assert(handles@.to_set().contains(h));
                vstd::seq_lib::seq_to_set_is_finite(handles@.take(i as int));
                if m[h] == dst {
                    assert(some.insert(h).filter(is_for) =~= some.filter(is_for).insert(h));
                } else {
                    assert(some.insert(h).filter(is_for) =~= some.filter(is_for));
                }
            }
            if let Some(d) = self.listening.get(h) {
                if *d == dst {
                    n += 1;
                }
            }
            i += 1;
        }
        proof {
            assert(handles@.take(handles@.len() as int) =~= handles@);
            vstd::seq_lib::seq_to_set_is_finite(handles@);
            assert(listeners(m, dst) =~= m.dom().filter(is_for));
        }
        n
    }

    fn add_listener(&mut self, dst: Destination)
        requires
            old(self).model().listening.dom().subset_of(old(self).model().sockets.dom()),
            old(self).model().listening.dom().finite(),
            old(self).can_grow(),
        ensures
            old(self).model().grows_to(final(self).model()),
            forall|d: Destination|
                (#[trigger] listeners(final(self).model().listening, d)).len() == listeners(
                    old(self).model().listening,
                    d,
                ).len() + (if d == dst && dst.port != 0 {
                    1nat
                } else {
                    0nat
                }),
            final(self).has_dns() == old(self).has_dns(),
            final(self).can_grow() == old(self).can_grow(),
            old(self).has_dns() ==> final(self).dns() == old(self).dns(),
    {
        let ghost m = self.model();
        let mut socket = new_tcp(TCP_RX_BUF_SIZE, TCP_TX_BUF_SIZE);
        if !tcp_listen(&mut socket, dst) {
            return;
        }
        let h = add_tcp(&mut self.sockets, socket);
        self.listening.insert(h, dst);
        proof {
            let before = m.listening;
            let after = self.model().listening;
            assert(!before.dom().contains(h));
            assert forall|d: Destination|
                (#[trigger] listeners(after, d)).len() == listeners(before, d).len() + (if d == dst {
                    1nat
                } else {
                    0nat
                }) by {
                if d == dst {
                    assert(listeners(after, d) =~= listeners(before, d).insert(h));
                } else {
                    assert(listeners(after, d) =~= listeners(before, d));
                }
            }
        }
    }

    /// Looks for frames that open a connection, and has a socket wait for each. As
    /// several may go to one destination, as many sockets wait for it.
    pub fn inspect_pending_frames(&mut self, frames: &Vec<Vec<u8>>)
        requires
            old(self).model().tracks(),
            old(self).can_grow(),
        ensures
            old(self).model().grows_to(final(self).model()),
            forall|dst: Destination|
                (#[trigger] listeners(final(self).model().listening, dst)).len() == wanted(
                    old(self).model().listening,
                    syns_of(frames@),
                    dst,
                ),
            final(self).model().tracks(),
            final(self).has_dns() == old(self).has_dns(),
            final(self).can_grow() == old(self).can_grow(),
            old(self).has_dns() ==> final(self).dns() == old(self).dns(),
    {
        let ghost m = self.model();
        let mut syns: Vec<Destination> = Vec::new();
        let mut i: usize = 0;
        assert(frames@.take(0) =~= Seq::empty());
        while i < frames.len()
            invariant
                i <= frames@.len(),
                syns@ == syns_of(frames@.take(i as int)),
            decreases frames@.len() - i,
        {
            assert(frames@.take(i + 1).drop_last() =~= frames@.take(i as int));
            if let Some(dst) = parse_syn_dst(frames[i].as_slice()) {
                syns.push(dst);
            }
            i += 1;
        }
        assert(frames@.take(frames@.len() as int) =~= frames@);
        let mut k: usize = 0;
        assert(syns@.take(0) =~= Seq::empty());
        while k < syns.len()
            invariant
                k <= syns@.len(),
                m.tracks(),
                old(self).can_grow(),
                m.grows_to(self.model()),
                forall|dst: Destination|
                    (#[trigger] listeners(self.model().listening, dst)).len() == wanted(
                        m.listening,
                        syns@.take(k as int),
                        dst,
                    ),
                self.has_dns() == old(self).has_dns(),
                self.can_grow() == old(self).can_grow(),
                old(self).has_dns() ==> self.dns() == old(self).dns(),
            decreases syns@.len() - k,
        {
            let dst = syns[k];
            let ghost now = syns@.take(k + 1);
            assert(now.drop_last() =~= syns@.take(k as int));
            let ghost before = self.model().listening;
            let ghost grown = self.model();
            let seen = count_until(&syns, k + 1, dst);
            let waiting = self.count_listeners(dst);
            if waiting < seen {
                self.add_listener(dst);
            }
            proof {
                let after = self.model().listening;
                lemma_grows(m, grown, self.model());
                assert forall|d: Destination|
                    (#[trigger] listeners(after, d)).len() == wanted(m.listening, now, d) by {
                    assert(listeners(before, d).len() == wanted(
                        m.listening,
                        syns@.take(k as int),
                        d,
                    ));
                }
            }
            k += 1;
        }
        assert(syns@.take(syns@.len() as int) =~= syns@);
    }

    /// Reads the queries that came in at the name service's port.
    pub fn poll_dns_socket(&mut self) -> (r: Vec<StackEvent>)
        requires
            old(self).has_dns(),
        ensures
            event_views(r@) == queries(old(self).dns().rx),
            final(self).dns() == (UdpView {
                rx: after_queries(old(self).dns().rx),
                ..old(self).dns()
            }),
            final(self).model() == old(self).model(),
            final(self).has_dns(),
            final(self).can_grow() == old(self).can_grow(),
    {
        let mut events: Vec<StackEvent> = Vec::new();
        let ghost rx = self.dns().rx;
        let ghost view = self.dns();
        let socket = udp_mut(&mut self.sockets, self.dns_handle);
        assert(event_views(events@) + queries(rx) =~= queries(rx));
        loop
            invariant_except_break
                event_views(events@) + queries(udp_view(*socket).rx) == queries(rx),
                after_queries(udp_view(*socket).rx) == after_queries(rx),
            invariant
                udp_view(*socket) == (UdpView { rx: udp_view(*socket).rx, ..view }),
                tcp_sockets(after_borrow(self.sockets)) == old(self).model().sockets,
                set_grows(after_borrow(self.sockets)) == old(self).can_grow(),
                udp_sockets(after_borrow(self.sockets)).dom().contains(self.dns_handle),
                udp_sockets(after_borrow(self.sockets))[self.dns_handle] == udp_view(
                    *final(socket),
                ),
            ensures
                event_views(events@) == queries(rx),
                udp_view(*socket).rx == after_queries(rx),
            decreases udp_view(*socket).rx.len(),
        {
            let ghost before = udp_view(*socket).rx;
            if !udp_can_recv(socket) {
                assert(queries(before) =~= Seq::empty());
                assert(event_views(events@) =~= queries(rx));
                break;
            }
            match udp_recv(socket, DNS_BYTES) {
                Some((src, payload)) => {
                    let ghost was = event_views(events@);
                    events.push(StackEvent::DnsQuery { src, payload });
                    assert(event_views(events@) =~= was.push(
                        EventView::Query { src, payload: payload@ },
                    ));
                    assert(event_views(events@) + queries(udp_view(*socket).rx) =~= queries(rx));
                },
                None => {
                    assert(queries(before) =~= Seq::empty());
                    assert(event_views(events@) =~= queries(rx));
                    break;
                },
            }
        }
        events
    }
}

proof fn lemma_take_to_set(s: Seq<SocketHandle>, i: int)
    requires
        s.no_duplicates(),
        0 <= i < s.len(),
    ensures
        s.take(i + 1).to_set() == s.take(i).to_set().insert(s[i]),
        !s.take(i).to_set().contains(s[i]),
{
    let a = s.take(i);
    let b = s.take(i + 1);
    assert forall|h: SocketHandle| #[trigger] b.to_set().contains(h) == a.to_set().insert(
        s[i],
    ).contains(h) by {
        if b.contains(h) {
            let j = choose|j: int| 0 <= j < b.len() && b[j] == h;
            if j < i {
                assert(a[j] == h);
            }
        }
        if a.contains(h) {
            let j = choose|j: int| 0 <= j < a.len() && a[j] == h;
            assert(b[j] == h);
        }
        assert(b[i] == s[i]);
    }
    assert(b.to_set() =~= a.to_set().insert(s[i]));
    if a.contains(s[i]) {
        let j = choose|j: int| 0 <= j < a.len() && a[j] == s[i];
        assert(s[j] == s[i]);
    }
}

proof fn lemma_joined(a: Seq<SocketHandle>, b: Seq<SocketHandle>, c: Seq<SocketHandle>)
    requires
        a.no_duplicates(),
        b.no_duplicates(),
        a.to_set().disjoint(b.to_set()),
        c == a + b,
    ensures
        c.no_duplicates(),
        c.to_set() == a.to_set() + b.to_set(),
{
    assert forall|i: int, j: int| 0 <= i < c.len() && 0 <= j < c.len() && i != j implies c[i]
        != c[j] by {
        let x = if i < a.len() {
            i
        } else {
            i - a.len()
        };
        let y = if j < a.len() {
            j
        } else {
            j - a.len()
        };
        if i < a.len() && j >= a.len() {
            assert(a.to_set().contains(a[x]) && b.to_set().contains(b[y]));
        } else if i >= a.len() && j < a.len() {
            assert(b.to_set().contains(b[x]) && a.to_set().contains(a[y]));
        }
    }
    assert forall|h: SocketHandle| #[trigger] c.to_set().contains(h) == (a.to_set()
        + b.to_set()).contains(h) by {
        if a.contains(h) {
            let j = choose|j: int| 0 <= j < a.len() && a[j] == h;
            assert(c[j] == h);
        }
        if b.contains(h) {
            let j = choose|j: int| 0 <= j < b.len() && b[j] == h;
            assert(c[a.len() + j] == h);
        }
    }
    assert(c.to_set() =~= a.to_set() + b.to_set());
}

/// Looking at one socket after some others is looking at them all.
proof fn lemma_poll_one_more(m: StackModel, some: Set<SocketHandle>, h: SocketHandle)
    requires
        !some.contains(h),
        m.sockets.dom().contains(h),
    ensures
        m.after_poll(some).sockets.dom().contains(h),
        m.after_poll(some).after_poll(set![h]) == m.after_poll(some.insert(h)),
        m.after_poll(some).events_of(h) == m.events_of(h),
{
    let n = m.after_poll(some);
    assert(n.sockets[h] == m.sockets[h]);
    assert(n.connections.dom().contains(h) == m.connections.dom().contains(h));
    assert(n.dst_of(h) == m.dst_of(h));
    assert(n.read_socket(h) == m.read_socket(h));
    assert(n.ends(h) == m.ends(h));
    assert(n.after_poll(set![h]) =~= m.after_poll(some.insert(h)));
}

proof fn lemma_grows(a: StackModel, b: StackModel, c: StackModel)
    requires
        a.grows_to(b),
        b.grows_to(c) || b == c,
    ensures
        a.grows_to(c),
{
    vstd::map_lib::lemma_submap_of_trans(a.sockets, b.sockets, c.sockets);
    vstd::map_lib::lemma_submap_of_trans(a.listening, b.listening, c.listening);
    assert forall|h: SocketHandle|
        #[trigger] c.sockets.dom().contains(h) && !a.sockets.dom().contains(
            h,
        ) implies c.listening.dom().contains(h) && c.sockets[h] == listener(
        c.listening[h],
        TCP_RX_BUF_SIZE as nat,
        TCP_TX_BUF_SIZE as nat,
    ) by {
        if b.sockets.dom().contains(h) {
            assert(c.sockets[h] == b.sockets[h]);
            assert(b.listening.dom().contains(h));
            assert(c.listening.dom().contains(h));
        }
    }
    assert forall|h: SocketHandle|
        #[trigger] c.listening.dom().contains(h) && !a.listening.dom().contains(
            h,
        ) implies c.sockets.dom().contains(h) && !a.sockets.dom().contains(h) by {
        if b.listening.dom().contains(h) {
            assert(b.sockets.dom().contains(h));
        } else if a.sockets.dom().contains(h) {
            assert(b.sockets.dom().contains(h));
        }
    }
}

/// Draining one connection after some others is draining them all.
proof fn lemma_drain_one_more(m: StackModel, some: Set<SocketHandle>, h: SocketHandle)
    requires
        !some.contains(h),
        m.sockets.dom().contains(h),
        m.pending.dom().contains(h),
    ensures
        m.after_drain(some).sockets.dom().contains(h),
        m.after_drain(some).pending.dom().contains(h),
        m.after_drain(some).after_drain(set![h]) == m.after_drain(some.insert(h)),
{
    let n = m.after_drain(some);
    assert(n.sockets[h] == m.sockets[h]);
    assert(n.pending_of(h) == m.pending_of(h));
    assert(n.closing.contains(h) == m.closing.contains(h));
    assert(n.drained_socket(h) == m.drained_socket(h));
    assert(n.after_drain(set![h]) =~= m.after_drain(some.insert(h)));
}

/// How long to wait before the stack runs again, in microseconds, where the interface
/// may have said how long it can wait.
pub open spec fn wait_micros(delay: Option<u64>) -> u64 {
    match delay {
        None => 1_000,
        Some(d) => if d == 0 {
            1_000
        } else if d < 50_000 {
            d
        } else {
            50_000
        },
    }
}

/// How long to wait before the stack runs again, in microseconds.
pub fn poll_wait(delay: Option<u64>) -> (r: u64)
    ensures
        r == wait_micros(delay),
{
    match delay {
        None => 1_000,
        Some(d) => if d == 0 {
            1_000
        } else if d < 50_000 {
            d
        } else {
            50_000
        },
    }
}

/// What is on its way to the guest on a connection.
pub open spec fn outgoing(m: StackModel, h: SocketHandle) -> Seq<u8> {
    m.sockets[h].tx + m.pending_of(h)
}

/// Data for the guest is neither lost nor reordered: sending appends it, and moving
/// it into the sockets and closing connections leave it as it is.
pub proof fn law_outgoing_is_kept(
    m: StackModel,
    h: SocketHandle,
    other: SocketHandle,
    payload: Seq<u8>,
)
    requires
        m.sockets.dom().contains(h),
    ensures
        outgoing(m.after_send(h, payload), h) == outgoing(m, h) + payload,
        other != h ==> outgoing(m.after_send(other, payload), h) == outgoing(m, h),
        outgoing(m.after_close(other), h) == outgoing(m, h),
        outgoing(m.after_drain(m.pending.dom()), h) == outgoing(m, h),
{
    assert(outgoing(m.after_send(h, payload), h) =~= outgoing(m, h) + payload);
    assert(outgoing(m.after_close(other), h) =~= outgoing(m, h));
    let n = m.after_drain(m.pending.dom());
    let data = m.pending_of(h);
    let k = m.accepted(h) as int;
    assert(data =~= data.take(k) + data.skip(k));
    assert(outgoing(n, h) =~= outgoing(m, h));
}

/// A connection with waiting data is not closed when the proxy asks for it, but when
/// its socket has taken all the data.
pub proof fn law_close_waits_for_data(m: StackModel, h: SocketHandle)
    requires
        m.sockets.dom().contains(h),
        m.pending.dom().contains(h),
        m.pending[h].len() > 0,
    ensures
        m.after_close(h).sockets == m.sockets,
        m.after_close(h).finishes(h) <==> m.accepted(h) == m.pending[h].len(),
        ({
            let n = m.after_close(h);
            let after = n.after_drain(n.pending.dom());
            if n.finishes(h) {
                &&& after.sockets[h].state == m.sockets[h].closed().state
                &&& !after.pending.dom().contains(h)
                &&& !after.connections.dom().contains(h)
            } else {
                &&& after.sockets[h].state == m.sockets[h].state
                &&& after.pending_of(h).len() > 0
                &&& after.closing.contains(h)
            }
        }),
{
}

/// Data of the guest is neither lost nor reordered: what the proxy gets, followed by
/// what is left in the socket, is what was there; and when a connection is over,
/// nothing was left.
pub proof fn law_incoming_is_kept(m: StackModel, h: SocketHandle)
    requires
        m.sockets.dom().contains(h),
        m.watched().contains(h),
    ensures
        ({
            let after = m.after_poll(m.watched());
            if m.ends(h) {
                &&& m.taken(h) == m.sockets[h].rx
                &&& !after.sockets.dom().contains(h)
            } else {
                &&& after.sockets.dom().contains(h)
                &&& m.taken(h) + after.sockets[h].rx == m.sockets[h].rx
            }
        }),
{
    let rx = m.sockets[h].rx;
    let k = m.taken(h).len() as int;
    assert(m.taken(h) =~= rx.take(k));
    assert(rx =~= rx.take(k) + rx.skip(k));
    if m.ends(h) {
        assert(rx.skip(k).len() == 0);
        assert(m.taken(h) =~= rx);
    }
}

/// The bytes that events report of a connection, in order.
pub open spec fn reported(events: Seq<EventView>, h: SocketHandle) -> Seq<u8>
    decreases events.len(),
{
    if events.len() == 0 {
        Seq::empty()
    } else {
        match events.last() {
            EventView::Data { handle, payload } if handle == h => reported(
                events.drop_last(),
                h,
            ) + payload,
            _ => reported(events.drop_last(), h),
        }
    }
}

proof fn lemma_reported_sum(a: Seq<EventView>, b: Seq<EventView>, h: SocketHandle)
    ensures
        reported(a + b, h) == reported(a, h) + reported(b, h),
    decreases b.len(),
{
    if b.len() == 0 {
        assert(a + b =~= a);
        assert(reported(a, h) + reported(b, h) =~= reported(a, h));
    } else {
        lemma_reported_sum(a, b.drop_last(), h);
        assert((a + b).drop_last() =~= a + b.drop_last());
        assert((a + b).last() == b.last());
        assert(reported(a + b, h) =~= reported(a, h) + reported(b, h));
    }
}

proof fn lemma_reported_of_one(m: StackModel, k: SocketHandle, h: SocketHandle)
    ensures
        reported(m.events_of(k), h) == (if k == h {
            m.taken(k)
        } else {
            Seq::empty()
        }),
{
    reveal_with_fuel(reported, 4);
    let e = m.events_of(k);
    let rest = Seq::<u8>::empty();
    assert(rest + m.taken(h) =~= m.taken(h));
    if m.ends(k) {
        assert(e.last() == (EventView::Closed { handle: k }));
        let f = e.drop_last();
        if m.taken(k).len() > 0 {
            assert(f.last() == (EventView::Data { handle: k, payload: m.taken(k) }));
        }
    } else if m.taken(k).len() > 0 {
        assert(e.last() == (EventView::Data { handle: k, payload: m.taken(k) }));
    }
    assert(m.taken(k).len() == 0 ==> m.taken(k) =~= Seq::empty());
}

proof fn lemma_reported_of_all(m: StackModel, order: Seq<SocketHandle>, h: SocketHandle)
    requires
        order.no_duplicates(),
    ensures
        reported(m.events_of_all(order), h) == (if order.contains(h) {
            m.taken(h)
        } else {
            Seq::empty()
        }),
    decreases order.len(),
{
    if order.len() > 0 {
        let init = order.drop_last();
        let last = order.last();
        lemma_reported_of_all(m, init, h);
        lemma_reported_sum(m.events_of_all(init), m.events_of(last), h);
        lemma_reported_of_one(m, last, h);
        if last == h {
            if init.contains(h) {
                let j = choose|j: int| 0 <= j < init.len() && init[j] == h;
                assert(order[j] == order[order.len() - 1]);
            }
            assert(order[order.len() - 1] == h);
        } else if order.contains(h) {
            let j = choose|j: int| 0 <= j < order.len() && order[j] == h;
            assert(init[j] == h);
        } else if init.contains(h) {
            let j = choose|j: int| 0 <= j < init.len() && init[j] == h;
            assert(order[j] == h);
        }
        assert(reported(m.events_of_all(order), h) =~= (if order.contains(h) {
            m.taken(h)
        } else {
            Seq::empty()
        }));
    }
}

/// What the proxy is told of a connection's data is what the guest sent: the payloads of
/// the events of a poll, joined in order, followed by what is left in the socket, are what
/// the socket held before. Of a connection that the proxy knows, or is told of now, up to
/// 65536 bytes are reported at once; of any other socket nothing is.
pub proof fn law_data_is_reported_as_it_came(
    m: StackModel,
    order: Seq<SocketHandle>,
    h: SocketHandle,
)
    requires
        order.no_duplicates(),
        order.to_set() == m.watched(),
        m.watched().contains(h),
        m.sockets.dom().contains(h),
    ensures
        ({
            let events = m.events_of_all(order);
            let after = m.after_poll(m.watched());
            let before = m.sockets[h].rx;
            &&& reported(events, h) + (if after.sockets.dom().contains(h) {
                after.sockets[h].rx
            } else {
                Seq::empty()
            }) == before
            &&& m.connections.dom().contains(h) ==> reported(events, h).len() == (if before.len()
                <= 65536 {
                before.len()
            } else {
                65536
            })
            &&& !m.connections.dom().contains(h) && m.sockets[h].local is None ==> reported(
                events,
                h,
            ).len() == 0
        }),
{
    lemma_reported_of_all(m, order, h);
    assert(order.to_set().contains(h));
    law_incoming_is_kept(m, h);
    assert(m.taken(h) + Seq::<u8>::empty() =~= m.taken(h));
}

/// The proxy is told of a connection once a socket has one, with the address that the
/// guest wanted, if it does not know it yet; and of its end once the connection is over
/// and everything that came in was reported. What is not over stays as it is but for what
/// was read.
pub proof fn law_connections_are_told_of(m: StackModel, h: SocketHandle)
    requires
        m.sockets.dom().contains(h),
        m.watched().contains(h),
    ensures
        ({
            let s = m.sockets[h];
            let known = m.connections.dom().contains(h);
            let after = m.after_poll(m.watched());
            let alive = s.state != TcpState::Closed && s.state != TcpState::TimeWait;
            let opened = !known && alive && s.state != TcpState::Listen && s.local is Some;
            let over = known && !alive && s.rx.len() <= 65536;
            &&& forall|dst: Destination| #[trigger]
                m.events_of(h).contains(EventView::Opened { handle: h, dst }) <==> opened
                    && s.local == Some(dst)
            &&& m.events_of(h).contains(EventView::Closed { handle: h }) <==> over
            &&& opened ==> after.connections.dom().contains(h) && s.local == Some(
                after.connections[h],
            ) && after.connections.dom().contains(h)
            &&& known && !over ==> after.connections.dom().contains(h) && after.connections[h]
                == m.connections[h]
            &&& over ==> !after.connections.dom().contains(h) && !after.sockets.dom().contains(h)
                && !after.pending.dom().contains(h) && !after.closing.contains(h)
            &&& !over ==> after.sockets.dom().contains(h) && after.sockets[h].tx == s.tx
                && after.sockets[h].state == s.state && after.sockets[h].local == s.local
                && after.pending_of(h) == m.pending_of(h) && after.closing.contains(h)
                == m.closing.contains(h)
            &&& opened && m.listening.dom().contains(h) && s.local == Some(m.listening[h])
                ==> !after.listening.dom().contains(h)
            &&& !opened && m.listening.dom().contains(h) ==> after.listening.dom().contains(h)
                && after.listening[h] == m.listening[h]
        }),
{
    let s = m.sockets[h];
    let e = m.events_of(h);
    assert(m.read_socket(h).rx.len() == s.rx.len() - m.taken(h).len());
    if m.opens(h) {
        assert(e[0] == (EventView::Opened { handle: h, dst: m.dst_of(h) }));
    }
    if m.ends(h) {
        assert(e[e.len() - 1] == (EventView::Closed { handle: h }));
    }
}

/// The proxy is told of a connection before it gets the connection's data, gets data
/// of known connections only, and hears nothing of a connection after its end.
pub proof fn law_events_are_in_order(m: StackModel, h: SocketHandle)
    requires
        m.sockets.dom().contains(h),
        m.watched().contains(h),
    ensures
        ({
            let after = m.after_poll(m.watched());
            &&& m.opens(h) <==> m.events_of(h).contains(
                EventView::Opened { handle: h, dst: m.dst_of(h) },
            )
            &&& m.opens(h) ==> m.events_of(h)[0] == (EventView::Opened {
                handle: h,
                dst: m.dst_of(h),
            }) && !m.connections.dom().contains(h)
            &&& m.events_of(h).len() > 0 ==> m.connected(h)
            &&& m.ends(h) ==> m.events_of(h).last() == (EventView::Closed { handle: h })
            &&& m.connected(h) ==> after.connections.dom().contains(h) == !m.ends(h)
            &&& after.connections.dom().contains(h) ==> !after.opens(h)
        }),
{
    let e = m.events_of(h);
    if m.opens(h) {
        assert(e[0] == (EventView::Opened { handle: h, dst: m.dst_of(h) }));
    }
}

/// Every handle keeps its socket: no command or step leaves the stack with a handle
/// whose socket is gone, as long as connections that come in go where they were
/// waited for.
pub proof fn law_handles_keep_their_sockets(m: StackModel, h: SocketHandle, payload: Seq<u8>)
    requires
        m.tracks(),
        m.can_drain(),
        m.sockets.dom().contains(h),
    ensures
        m.after_send(h, payload).tracks() && m.after_send(h, payload).can_drain(),
        m.after_close(h).tracks() && m.after_close(h).can_drain(),
        m.after_drain(m.pending.dom()).tracks() && m.after_drain(m.pending.dom()).can_drain(),
        m.listeners_match() ==> m.after_poll(m.watched()).tracks(),
        m.after_poll(m.watched()).can_drain(),
{
    if m.listeners_match() {
        let n = m.after_poll(m.watched());
        assert forall|k: SocketHandle| #[trigger]
            n.listening.dom().contains(k) implies n.sockets.dom().contains(k)
            && !n.connections.dom().contains(k) by {
            assert(m.listening.dom().contains(k));
            assert(m.watched().contains(k));
            assert(!m.connections.dom().contains(k));
        }
        assert forall|k: SocketHandle| #[trigger]
            n.connections.dom().contains(k) implies n.sockets.dom().contains(k) by {
            assert(m.watched().contains(k));
        }
    }
}

/// Every socket that waits for a connection listens where the connection is to go: a new
/// one does, and no command or step makes one listen elsewhere, as long as connections
/// that come in go where they were waited for.
pub proof fn law_sockets_listen_where_they_wait(
    m: StackModel,
    after: StackModel,
    h: SocketHandle,
    payload: Seq<u8>,
)
    requires
        m.tracks(),
        m.listens_where_it_waits(),
    ensures
        m.grows_to(after) ==> after.listens_where_it_waits(),
        m.after_send(h, payload).listens_where_it_waits(),
        m.after_close(h).listens_where_it_waits(),
        m.after_drain(m.pending.dom()).listens_where_it_waits(),
        m.listeners_match() ==> m.after_poll(m.watched()).listens_where_it_waits(),
{
    if m.grows_to(after) {
        assert forall|k: SocketHandle| #[trigger]
            after.listening.dom().contains(k) implies after.sockets[k].listens == Some(
            after.listening[k],
        ) by {
            if m.listening.dom().contains(k) {
                assert(m.sockets.dom().contains(k));
                assert(after.sockets.dom().contains(k));
            } else {
                assert(after.sockets.dom().contains(k));
            }
        }
    }
}

/// A connection is to be closed later only while data for it waits: whatever the stack
/// does, none is left over whose socket is gone, so that a later connection under the same
/// handle is not taken for it.
pub proof fn law_closing_waits_for_data(m: StackModel, h: SocketHandle, payload: Seq<u8>)
    requires
        m.can_drain(),
        m.closing_waits(),
    ensures
        m.closing.subset_of(m.sockets.dom()),
        m.after_send(h, payload).closing_waits(),
        m.after_close(h).closing_waits(),
        m.after_drain(m.pending.dom()).closing_waits(),
        m.after_poll(m.watched()).closing_waits(),
{
    assert forall|k: SocketHandle| #[trigger] m.closing.contains(k) implies m.sockets.dom().contains(
        k,
    ) by {
        assert(m.pending.dom().contains(k));
    }
    let drained = m.after_drain(m.pending.dom());
    assert forall|k: SocketHandle| #[trigger] drained.closing.contains(k) implies drained.pending_of(
        k,
    ).len() > 0 by {
        assert(m.closing.contains(k));
    }
    let polled = m.after_poll(m.watched());
    assert forall|k: SocketHandle| #[trigger] polled.closing.contains(k) implies polled.pending_of(
        k,
    ).len() > 0 by {
        assert(m.closing.contains(k));
    }
}

/// However many connections the guest opens to one destination at once, a socket
/// waits for each.
pub proof fn law_a_socket_for_each_syn(
    listening: Map<SocketHandle, Destination>,
    frames: Seq<Vec<u8>>,
    dst: Destination,
)
    requires
        dst.port != 0,
    ensures
        wanted(listening, syns_of(frames), dst) >= occurrences(syns_of(frames), dst),
        wanted(listening, syns_of(frames), dst) >= listeners(listening, dst).len(),
{
}

/// Whether an event is about a connection.
pub open spec fn is_about(e: EventView, h: SocketHandle) -> bool {
    match e {
        EventView::Opened { handle, .. } => handle == h,
        EventView::Data { handle, .. } => handle == h,
        EventView::Closed { handle } => handle == h,
        EventView::Query { .. } => false,
    }
}

/// The events about a connection.
pub open spec fn about(events: Seq<EventView>, h: SocketHandle) -> Seq<EventView>
    decreases events.len(),
{
    if events.len() == 0 {
        Seq::empty()
    } else if is_about(events.last(), h) {
        about(events.drop_last(), h).push(events.last())
    } else {
        about(events.drop_last(), h)
    }
}

proof fn lemma_about_sum(a: Seq<EventView>, b: Seq<EventView>, h: SocketHandle)
    ensures
        about(a + b, h) == about(a, h) + about(b, h),
    decreases b.len(),
{
    if b.len() == 0 {
        assert(a + b =~= a);
        assert(about(a, h) + about(b, h) =~= about(a, h));
    } else {
        lemma_about_sum(a, b.drop_last(), h);
        assert((a + b).drop_last() =~= a + b.drop_last());
        assert((a + b).last() == b.last());
        assert(about(a + b, h) =~= about(a, h) + about(b, h));
    }
}

proof fn lemma_about_own(m: StackModel, k: SocketHandle, h: SocketHandle)
    ensures
        about(m.events_of(k), h) == (if k == h {
            m.events_of(k)
        } else {
            Seq::empty()
        }),
{
    let e = m.events_of(k);
    assert(forall|i: int| 0 <= i < e.len() ==> is_about(#[trigger] e[i], h) == (k == h));
    lemma_about_uniform(e, h, k == h);
}

proof fn lemma_about_uniform(e: Seq<EventView>, h: SocketHandle, all: bool)
    requires
        forall|i: int| 0 <= i < e.len() ==> is_about(#[trigger] e[i], h) == all,
    ensures
        about(e, h) == (if all {
            e
        } else {
            Seq::empty()
        }),
    decreases e.len(),
{
    if e.len() > 0 {
        lemma_about_uniform(e.drop_last(), h, all);
        assert(e.drop_last().push(e.last()) =~= e);
    }
}

/// Whatever the order in which the sockets are looked at, what the proxy hears of one
/// connection is the same.
pub proof fn law_order_does_not_matter(
    m: StackModel,
    order: Seq<SocketHandle>,
    h: SocketHandle,
)
    requires
        order.no_duplicates(),
    ensures
        about(m.events_of_all(order), h) == (if order.contains(h) {
            m.events_of(h)
        } else {
            Seq::empty()
        }),
    decreases order.len(),
{
    if order.len() > 0 {
        let init = order.drop_last();
        let last = order.last();
        law_order_does_not_matter(m, init, h);
        lemma_about_sum(m.events_of_all(init), m.events_of(last), h);
        lemma_about_own(m, last, h);
        if last == h {
            if init.contains(h) {
                let j = choose|j: int| 0 <= j < init.len() && init[j] == h;
                assert(order[j] == order[order.len() - 1]);
            }
            assert(order[order.len() - 1] == h);
        } else if order.contains(h) {
            let j = choose|j: int| 0 <= j < order.len() && order[j] == h;
            assert(init[j] == h);
        } else if init.contains(h) {
            let j = choose|j: int| 0 <= j < init.len() && init[j] == h;
            assert(order[j] == h);
        }
        assert(about(m.events_of_all(order), h) =~= (if order.contains(h) {
            m.events_of(h)
        } else {
            Seq::empty()
        }));
    }
}

/// An event names its connection and carries its bytes.
pub proof fn law_events_carry_what_they_say(events: Seq<StackEvent>, i: int)
    requires
        0 <= i < events.len(),
    ensures
        event_views(events).len() == events.len(),
        match events[i] {
            StackEvent::NewConnection(c) => event_views(events)[i] == (EventView::Opened {
                handle: c.id.handle(),
                dst: c.dst,
            }),
            StackEvent::Data { id, payload } => event_views(events)[i] == (EventView::Data {
                handle: id.handle(),
                payload: payload@,
            }),
            StackEvent::Closed { id } => event_views(events)[i] == (EventView::Closed {
                handle: id.handle(),
            }),
            StackEvent::DnsQuery { src, payload } => event_views(events)[i] == (EventView::Query {
                src,
                payload: payload@,
            }),
        },
{
}

/// Moving waiting data into a socket appends the front of it to what the socket sends, and
/// goes on until nothing waits or the socket is full or takes no data; the connection is
/// closed then exactly if that was asked for and nothing waits, and nothing else changes.
pub proof fn law_sockets_take_what_they_have_room_for(m: StackModel, h: SocketHandle)
    requires
        m.sockets.dom().contains(h),
        m.pending.dom().contains(h),
        m.sockets[h].tx.len() <= m.sockets[h].tx_capacity,
    ensures
        ({
            let s = m.sockets[h];
            let after = m.after_drain(m.pending.dom());
            let t = after.sockets[h];
            let open = s.state == TcpState::Established || s.state == TcpState::CloseWait;
            let n = t.tx.len() - s.tx.len();
            &&& 0 <= n <= m.pending[h].len()
            &&& t.tx == s.tx + m.pending[h].take(n)
            &&& after.pending_of(h) == m.pending[h].skip(n)
            &&& !open ==> n == 0
            &&& open ==> n == m.pending[h].len() || t.tx.len() == s.tx_capacity
            &&& t.rx == s.rx && t.local == s.local && t.tx_capacity == s.tx_capacity
            &&& if m.closing.contains(h) && n == m.pending[h].len() {
                &&& !after.connections.dom().contains(h)
                &&& !after.pending.dom().contains(h)
                &&& !after.closing.contains(h)
                &&& s.state == TcpState::Established ==> t.state == TcpState::FinWait1
                &&& s.state == TcpState::CloseWait ==> t.state == TcpState::LastAck
            } else {
                &&& t.state == s.state
                &&& after.connections.dom().contains(h) == m.connections.dom().contains(h)
                &&& after.closing.contains(h) == m.closing.contains(h)
            }
        }),
{
    let s = m.sockets[h];
    let after = m.after_drain(m.pending.dom());
    let k = m.accepted(h) as int;
    assert(after.sockets[h].tx =~= s.tx + m.pending[h].take(k));
    if m.finishes(h) {
        assert(m.pending[h].skip(k) =~= Seq::empty());
    }
}

/// Data for the guest waits behind what waits already, and a close of a connection that
/// has nothing waiting ends the host's half at once and forgets the connection, but leaves
/// its socket and everything that is not its own.
pub proof fn law_commands_change_one_connection(
    m: StackModel,
    h: SocketHandle,
    other: SocketHandle,
    payload: Seq<u8>,
)
    requires
        m.sockets.dom().contains(h),
    ensures
        m.after_send(h, payload).pending_of(h) == m.pending_of(h) + payload,
        m.after_send(h, payload).sockets == m.sockets,
        m.after_send(h, payload).connections == m.connections,
        m.after_send(h, payload).closing == m.closing,
        other != h ==> m.after_send(h, payload).pending_of(other) == m.pending_of(other),
        m.pending_of(h).len() == 0 ==> {
            let after = m.after_close(h);
            &&& after.sockets.dom().contains(h)
            &&& !after.connections.dom().contains(h)
            &&& after.sockets[h].rx == m.sockets[h].rx && after.sockets[h].tx == m.sockets[h].tx
            &&& m.sockets[h].state == TcpState::Established ==> after.sockets[h].state
                == TcpState::FinWait1
            &&& m.sockets[h].state == TcpState::CloseWait ==> after.sockets[h].state
                == TcpState::LastAck
        },
        m.pending_of(h).len() > 0 ==> m.after_close(h).closing.contains(h)
            && m.after_close(h).sockets == m.sockets && m.after_close(h).pending == m.pending
            && m.after_close(h).connections == m.connections,
        other != h ==> {
            let after = m.after_close(h);
            &&& after.sockets.dom().contains(other) == m.sockets.dom().contains(other)
            &&& m.sockets.dom().contains(other) ==> after.sockets[other] == m.sockets[other]
            &&& after.connections.dom().contains(other) == m.connections.dom().contains(other)
            &&& after.pending_of(other) == m.pending_of(other)
            &&& after.closing.contains(other) == m.closing.contains(other)
        },
{
}

/// The queries that came in are reported in order, each with its sender and its bytes, up
/// to one that is longer than 4096 bytes, which is dropped; what is behind it stays.
pub proof fn law_queries_are_reported(rx: Seq<(Destination, Seq<u8>)>)
    ensures
        ({
            let n = queries(rx).len() as int;
            &&& n <= rx.len()
            &&& forall|i: int|
                0 <= i < n ==> #[trigger] queries(rx)[i] == (EventView::Query {
                    src: rx[i].0,
                    payload: rx[i].1,
                }) && rx[i].1.len() <= 4096
            &&& n == rx.len() ==> after_queries(rx).len() == 0
            &&& n < rx.len() ==> rx[n].1.len() > 4096 && after_queries(rx) == rx.skip(n + 1)
        }),
    decreases rx.len(),
{
    if rx.len() > 0 {
        if rx[0].1.len() > DNS_BYTES {
            assert(rx.drop_first() =~= rx.skip(1));
        } else {
            let rest = rx.drop_first();
            law_queries_are_reported(rest);
            let n = queries(rest).len() as int;
            assert forall|i: int| 0 <= i < n + 1 implies #[trigger] queries(rx)[i] == (
            EventView::Query { src: rx[i].0, payload: rx[i].1 }) && rx[i].1.len() <= 4096 by {
                if i > 0 {
                    assert(queries(rx)[i] == queries(rest)[i - 1]);
                    assert(rest[i - 1] == rx[i]);
                }
            }
            if n < rest.len() {
                assert(rest[n] == rx[n + 1]);
                assert(rest.skip(n + 1) =~= rx.skip(n + 2));
            }
        }
    }
}

/// An answer to a query is queued for its receiver as it is, behind what waits already,
/// where the socket is bound, the receiver has an address and a port, and there is room;
/// otherwise nothing is queued. Nothing that came in is touched.
pub proof fn law_answers_are_queued(
    socket: UdpView,
    dst: Destination,
    data: Seq<u8>,
    room: int,
)
    ensures
        ({
            let after = socket.after_datagram(dst, data, room);
            &&& after.rx == socket.rx && after.bound == socket.bound
            &&& if socket.bound is Some && dst.ip != 0 && dst.port != 0 && data.len()
                <= socket.tx_room {
                after.tx == socket.tx.push((dst, data))
            } else {
                after.tx == socket.tx
            }
        }),
{
}

/// Every frame that opens a connection counts for its destination, and no other frame
/// does.
pub proof fn law_each_syn_counts(frames: Seq<Vec<u8>>, frame: Vec<u8>, dst: Destination)
    ensures
        occurrences(syns_of(frames.push(frame)), dst) == occurrences(syns_of(frames), dst) + (
        if syn_dst(frame@) == Some(dst) {
            1nat
        } else {
            0nat
        }),
        occurrences(syns_of(Seq::empty()), dst) == 0,
{
    assert(frames.push(frame).drop_last() =~= frames);
    assert(frames.push(frame).last() == frame);
    if let Some(d) = syn_dst(frame@) {
        assert(syns_of(frames).push(d).drop_last() =~= syns_of(frames));
    }
}

/// As many sockets wait for a destination as the guest opens connections to it at once, or
/// as many as waited already if those are more, and none is added for port 0.
pub proof fn law_no_socket_too_many(
    listening: Map<SocketHandle, Destination>,
    syns: Seq<Destination>,
    dst: Destination,
)
    ensures
        ({
            let waiting = listeners(listening, dst).len();
            let opened = occurrences(syns, dst);
            wanted(listening, syns, dst) == (if dst.port != 0 && opened > waiting {
                opened
            } else {
                waiting
            })
        }),
        forall|h: SocketHandle| #[trigger]
            listeners(listening, dst).contains(h) <==> listening.dom().contains(h)
                && listening[h] == dst,
{
}

/// Frames that open connections only add sockets: each waits for a connection, listens at
/// the destination that it waits for, and can take and send 65536 bytes; what was there
/// stays as it is.
pub proof fn law_new_sockets_listen(m: StackModel, after: StackModel, h: SocketHandle)
    requires
        m.grows_to(after),
    ensures
        after.connections == m.connections,
        after.pending == m.pending,
        after.closing == m.closing,
        m.sockets.dom().contains(h) ==> after.sockets.dom().contains(h) && after.sockets[h]
            == m.sockets[h],
        m.listening.dom().contains(h) ==> after.listening.dom().contains(h) && after.listening[h]
            == m.listening[h],
        after.sockets.dom().contains(h) && !m.sockets.dom().contains(h) ==> {
            let s = after.sockets[h];
            &&& after.listening.dom().contains(h)
            &&& s.state == TcpState::Listen && s.local is None
            &&& s.listens == Some(after.listening[h])
            &&& s.rx.len() == 0 && s.tx.len() == 0
            &&& s.rx_capacity == 65536 && s.tx_capacity == 65536
        },
{
    if m.sockets.dom().contains(h) {
        assert(after.sockets.dom().contains(h));
    }
    if m.listening.dom().contains(h) {
        assert(after.listening.dom().contains(h));
    }
}

/// The stack waits as long as its interface allows, but never more than 50 ms, and 1 ms
/// where the interface says nothing or not to wait.
pub proof fn law_the_stack_waits_a_little(delay: Option<u64>)
    ensures
        delay is None || delay == Some(0u64) ==> wait_micros(delay) == 1000,
        delay matches Some(d) ==> (0 < d <= 50000 ==> wait_micros(delay) == d),
        delay matches Some(d) ==> (d > 50000 ==> wait_micros(delay) == 50000),
{
}

/// The gateway is 10.0.0.1 in a network of 256 addresses, and answers queries for names at
/// port 53.
pub proof fn law_the_gateway_has_its_address()
    ensures
        GATEWAY_IP == 10 * 0x100_0000 + 1,
        PREFIX_LEN == 24,
        DNS_PORT == 53,
        TCP_RX_BUF_SIZE == 65536,
        TCP_TX_BUF_SIZE == 65536,
        DNS_PACKETS == 16,
        DNS_BYTES == 4096,
{
}

} // verus!
