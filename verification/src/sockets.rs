//! The guest-side sockets of the network stack.
//!
//! `smoltcp` runs the sockets. What the stack needs of a socket is modelled by a
//! [`TcpView`] or a [`UdpView`], and a socket set by the sockets it holds under
//! each handle.

use crate::wire::Destination;
use smoltcp::iface::{SocketHandle, SocketSet};
use smoltcp::socket::tcp;
use smoltcp::socket::udp;
use smoltcp::wire::{IpAddress, IpEndpoint, IpListenEndpoint, Ipv4Address};
use vstd::prelude::*;

verus! {

/// The states of a TCP connection.
#[derive(Debug, Clone, Copy, PartialEq, Eq, Structural)]
pub enum TcpState {
    Closed,
    Listen,
    SynSent,
    SynReceived,
    Established,
    FinWait1,
    FinWait2,
    CloseWait,
    Closing,
    LastAck,
    TimeWait,
}

/// What is known of a TCP socket.
#[verifier::ext_equal]
pub struct TcpView {
    pub state: TcpState,
    /// Where the socket was last told to listen.
    pub listens: Option<Destination>,
    /// The local end of the connection, once there is one.
    pub local: Option<Destination>,
    /// What the guest sent and nobody has read.
    pub rx: Seq<u8>,
    /// What was written and the guest has not acknowledged.
    pub tx: Seq<u8>,
    /// The most that `rx` can hold.
    pub rx_capacity: nat,
    /// The most that `tx` can hold.
    pub tx_capacity: nat,
}

impl TcpView {
    /// Whether the socket is of any use.
    pub open spec fn is_open(self) -> bool {
        self.state != TcpState::Closed && self.state != TcpState::TimeWait
    }

    /// Whether there is a connection.
    pub open spec fn is_active(self) -> bool {
        self.is_open() && self.state != TcpState::Listen
    }

    /// Whether the socket takes data for the guest.
    pub open spec fn may_send(self) -> bool {
        self.state == TcpState::Established || self.state == TcpState::CloseWait
    }

    /// Whether data of the guest may be read.
    pub open spec fn may_recv(self) -> bool {
        self.state == TcpState::Established || self.state == TcpState::FinWait1 || self.state
            == TcpState::FinWait2 || self.rx.len() > 0
    }

    /// Whether there is room for data for the guest.
    pub open spec fn can_send(self) -> bool {
        self.may_send() && self.tx.len() < self.tx_capacity
    }

    /// Whether there is data of the guest to read.
    pub open spec fn can_recv(self) -> bool {
        self.may_recv() && self.rx.len() > 0
    }

    /// How much of `len` bytes the socket has room for.
    pub open spec fn room_for(self, len: nat) -> nat {
        if len <= self.tx_capacity - self.tx.len() {
            len
        } else if self.tx.len() <= self.tx_capacity {
            (self.tx_capacity - self.tx.len()) as nat
        } else {
            0
        }
    }

    /// The socket after the host closed its half of the connection.
    pub open spec fn closed(self) -> TcpView {
        TcpView {
            state: match self.state {
                TcpState::Listen | TcpState::SynSent => TcpState::Closed,
                TcpState::SynReceived | TcpState::Established => TcpState::FinWait1,
                TcpState::CloseWait => TcpState::LastAck,
                other => other,
            },
            ..self
        }
    }
}

/// A socket that waits for a connection to a destination.
pub open spec fn listener(dst: Destination, rx_capacity: nat, tx_capacity: nat) -> TcpView {
    TcpView {
        state: TcpState::Listen,
        listens: Some(dst),
        local: None,
        rx: Seq::empty(),
        tx: Seq::empty(),
        rx_capacity,
        tx_capacity,
    }
}

/// What is known of a UDP socket.
#[verifier::ext_equal]
pub struct UdpView {
    /// Where the socket receives.
    pub bound: Option<Destination>,
    /// Datagrams that came in, each with its sender.
    pub rx: Seq<(Destination, Seq<u8>)>,
    /// Datagrams to go out, each with its receiver.
    pub tx: Seq<(Destination, Seq<u8>)>,
    /// How many datagrams the receive buffer has places for.
    pub rx_packets: nat,
    /// How many bytes the receive buffer has places for.
    pub rx_bytes: nat,
    /// How many datagrams the transmit buffer has places for.
    pub tx_packets: nat,
    /// The length of the longest datagram that the transmit buffer has room for, below 0
    /// where it takes none.
    pub tx_room: int,
}

impl UdpView {
    /// Whether a datagram of that length can be queued for that receiver.
    pub open spec fn can_queue(self, len: nat, dst: Destination) -> bool {
        self.bound is Some && dst.ip != 0 && dst.port != 0 && len <= self.tx_room
    }

    /// The socket after a datagram was handed to it, which leaves `room`: it is queued,
    /// or dropped where it cannot be.
    pub open spec fn after_datagram(self, dst: Destination, data: Seq<u8>, room: int) -> UdpView {
        UdpView {
            tx: if self.can_queue(data.len(), dst) {
                self.tx.push((dst, data))
            } else {
                self.tx
            },
            tx_room: room,
            ..self
        }
    }
}

/// `smoltcp`'s handle of a socket in a set.
#[verifier::external_type_specification]
#[verifier::external_body]
pub struct ExSocketHandle(SocketHandle);

/// `smoltcp`'s set of sockets.
#[verifier::external_type_specification]
#[verifier::external_body]
pub struct ExSocketSet<'a>(SocketSet<'a>);

/// `smoltcp`'s TCP socket.
#[verifier::external_type_specification]
#[verifier::external_body]
pub struct ExTcpSocket<'a>(tcp::Socket<'a>);

/// `smoltcp`'s UDP socket.
#[verifier::external_type_specification]
#[verifier::external_body]
pub struct ExUdpSocket<'a>(udp::Socket<'a>);

/// What a TCP socket holds.
pub uninterp spec fn tcp_view(socket: tcp::Socket<'static>) -> TcpView;

/// What a UDP socket holds.
pub uninterp spec fn udp_view(socket: udp::Socket<'static>) -> UdpView;

/// The TCP sockets of a set.
pub uninterp spec fn tcp_sockets(set: SocketSet<'static>) -> Map<SocketHandle, TcpView>;

/// The UDP sockets of a set.
pub uninterp spec fn udp_sockets(set: SocketSet<'static>) -> Map<SocketHandle, UdpView>;

/// Whether a set makes room for one more socket whenever it has none left.
pub uninterp spec fn set_grows(set: SocketSet<'static>) -> bool;

/// `==` on handles. Trusted: two handles are equal where they are the same.
#[verifier::external_body]
pub(crate) fn same_handle(a: SocketHandle, b: SocketHandle) -> (r: bool)
    ensures
        r == (a == b),
{
    a == b
}

/// `SocketSet::new` on a growing storage. Trusted: the set is empty, and grows.
#[verifier::external_body]
pub(crate) fn new_set() -> (r: SocketSet<'static>)
    ensures
        tcp_sockets(r).dom() == Set::<SocketHandle>::empty(),
        udp_sockets(r).dom() == Set::<SocketHandle>::empty(),
        set_grows(r),
{
    SocketSet::new(Vec::new())
}

/// `SocketSet::add` of a TCP socket. Trusted: the socket is held under a handle that was
/// not in use, and nothing else changes. It panics where the set is full and its storage
/// is of a fixed size.
#[verifier::external_body]
pub(crate) fn add_tcp(set: &mut SocketSet<'static>, socket: tcp::Socket<'static>) -> (r:
    SocketHandle)
    requires
        set_grows(*old(set)),
    ensures
        !tcp_sockets(*old(set)).dom().contains(r),
        !udp_sockets(*old(set)).dom().contains(r),
        tcp_sockets(*final(set)) == tcp_sockets(*old(set)).insert(r, tcp_view(socket)),
        udp_sockets(*final(set)) == udp_sockets(*old(set)),
        set_grows(*final(set)),
{
    set.add(socket)
}

/// `SocketSet::add` of a UDP socket. Trusted: the socket is held under a handle that was
/// not in use, and nothing else changes. It panics where the set is full and its storage
/// is of a fixed size.
#[verifier::external_body]
pub(crate) fn add_udp(set: &mut SocketSet<'static>, socket: udp::Socket<'static>) -> (r:
    SocketHandle)
    requires
        set_grows(*old(set)),
    ensures
        !tcp_sockets(*old(set)).dom().contains(r),
        !udp_sockets(*old(set)).dom().contains(r),
        udp_sockets(*final(set)) == udp_sockets(*old(set)).insert(r, udp_view(socket)),
        tcp_sockets(*final(set)) == tcp_sockets(*old(set)),
        set_grows(*final(set)),
{
    set.add(socket)
}

/// `SocketSet::get_mut` of a TCP socket. Trusted: the socket under the handle is
/// lent, and nothing else in the set changes. It panics where the set holds no TCP
/// socket under the handle.
#[verifier::external_body]
pub(crate) fn tcp_mut<'a>(set: &'a mut SocketSet<'static>, handle: SocketHandle) -> (r:
    &'a mut tcp::Socket<'static>)
    requires
        tcp_sockets(*old(set)).dom().contains(handle),
    ensures
        tcp_view(*r) == tcp_sockets(*old(set))[handle],
        tcp_sockets(*final(set)) == tcp_sockets(*old(set)).insert(handle, tcp_view(*final(r))),
        udp_sockets(*final(set)) == udp_sockets(*old(set)),
        set_grows(*final(set)) == set_grows(*old(set)),
{
    set.get_mut::<tcp::Socket>(handle)
}

/// `SocketSet::get_mut` of a UDP socket. Trusted: the socket under the handle is
/// lent, and nothing else in the set changes. It panics where the set holds no UDP
/// socket under the handle.
#[verifier::external_body]
pub(crate) fn udp_mut<'a>(set: &'a mut SocketSet<'static>, handle: SocketHandle) -> (r:
    &'a mut udp::Socket<'static>)
    requires
        udp_sockets(*old(set)).dom().contains(handle),
    ensures
        udp_view(*r) == udp_sockets(*old(set))[handle],
        udp_sockets(*final(set)) == udp_sockets(*old(set)).insert(handle, udp_view(*final(r))),
        tcp_sockets(*final(set)) == tcp_sockets(*old(set)),
        set_grows(*final(set)) == set_grows(*old(set)),
{
    set.get_mut::<udp::Socket>(handle)
}

/// `SocketSet::remove` of a TCP socket. Trusted: the socket leaves the set, and
/// nothing else changes. It panics where the handle is not in use.
#[verifier::external_body]
pub(crate) fn remove_tcp(set: &mut SocketSet<'static>, handle: SocketHandle)
    requires
        tcp_sockets(*old(set)).dom().contains(handle),
    ensures
        tcp_sockets(*final(set)) == tcp_sockets(*old(set)).remove(handle),
        udp_sockets(*final(set)) == udp_sockets(*old(set)),
        set_grows(*final(set)) == set_grows(*old(set)),
{
    set.remove(handle);
}

/// `tcp::Socket::new` with buffers of the given sizes. Trusted: the socket is closed, was
/// never told to listen, and its buffers are empty. It panics on a receive buffer over 1 GiB.
#[verifier::external_body]
pub(crate) fn new_tcp(rx_size: usize, tx_size: usize) -> (r: tcp::Socket<'static>)
    requires
        rx_size <= 0x4000_0000,
    ensures
        tcp_view(r) == (TcpView {
            state: TcpState::Closed,
            listens: None,
            local: None,
            rx: Seq::empty(),
            tx: Seq::empty(),
            rx_capacity: rx_size as nat,
            tx_capacity: tx_size as nat,
        }),
{
    tcp::Socket::new(
        tcp::SocketBuffer::new(vec![0u8; rx_size]),
        tcp::SocketBuffer::new(vec![0u8; tx_size]),
    )
}

/// `tcp::Socket::listen`. Trusted: a socket that is not open starts to listen at the
/// address and the port, with empty buffers of the sizes it had, unless the port is 0,
/// which leaves it as it was.
#[verifier::external_body]
pub(crate) fn tcp_listen(socket: &mut tcp::Socket<'static>, local: Destination) -> (r: bool)
    requires
        !tcp_view(*old(socket)).is_open(),
    ensures
        r == (local.port != 0),
        tcp_view(*final(socket)) == (if local.port != 0 {
            listener(
                local,
                tcp_view(*old(socket)).rx_capacity,
                tcp_view(*old(socket)).tx_capacity,
            )
        } else {
            tcp_view(*old(socket))
        }),
{
    let addr = Some(IpAddress::Ipv4(Ipv4Address::from(local.ip)));
    socket.listen(IpListenEndpoint { addr, port: local.port }).is_ok()
}

/// `tcp::Socket::is_active`. Trusted: there is a connection.
#[verifier::external_body]
pub(crate) fn tcp_is_active(socket: &tcp::Socket<'static>) -> (r: bool)
    ensures
        r == tcp_view(*socket).is_active(),
{
    socket.is_active()
}

/// `tcp::Socket::is_open`. Trusted: the state is neither closed nor time-wait.
#[verifier::external_body]
pub(crate) fn tcp_is_open(socket: &tcp::Socket<'static>) -> (r: bool)
    ensures
        r == tcp_view(*socket).is_open(),
{
    socket.is_open()
}

/// `tcp::Socket::may_send`. Trusted: the state is established or close-wait.
#[verifier::external_body]
pub(crate) fn tcp_may_send(socket: &tcp::Socket<'static>) -> (r: bool)
    ensures
        r == tcp_view(*socket).may_send(),
{
    socket.may_send()
}

/// `tcp::Socket::may_recv`. Trusted: the state lets the guest send, or there is
/// data left to read.
#[verifier::external_body]
pub(crate) fn tcp_may_recv(socket: &tcp::Socket<'static>) -> (r: bool)
    ensures
        r == tcp_view(*socket).may_recv(),
{
    socket.may_recv()
}

/// `tcp::Socket::can_send`. Trusted: the socket takes data and has room for some.
#[verifier::external_body]
pub(crate) fn tcp_can_send(socket: &tcp::Socket<'static>) -> (r: bool)
    ensures
        r == tcp_view(*socket).can_send(),
{
    socket.can_send()
}

/// `tcp::Socket::can_recv`. Trusted: there is data to read.
#[verifier::external_body]
pub(crate) fn tcp_can_recv(socket: &tcp::Socket<'static>) -> (r: bool)
    ensures
        r == tcp_view(*socket).can_recv(),
{
    socket.can_recv()
}

/// `tcp::Socket::local_endpoint`. Trusted: it is the local end of the connection,
/// which is an IPv4 endpoint, as no other kind is compiled in.
#[verifier::external_body]
pub(crate) fn tcp_local(socket: &tcp::Socket<'static>) -> (r: Option<Destination>)
    ensures
        r == tcp_view(*socket).local,
{
    let local = socket.local_endpoint()?;
    let IpAddress::Ipv4(ip) = local.addr;
    Some(Destination { ip: ip.into(), port: local.port })
}

/// `tcp::Socket::close`. Trusted: the state moves as when the host ends its half of
/// the connection, and nothing else changes.
#[verifier::external_body]
pub(crate) fn tcp_close(socket: &mut tcp::Socket<'static>)
    ensures
        tcp_view(*final(socket)) == tcp_view(*old(socket)).closed(),
{
    socket.close();
}

/// `tcp::Socket::send_slice`. Trusted: where the socket takes data, as much of it as
/// there is room for is appended to the transmit queue.
#[verifier::external_body]
pub(crate) fn tcp_send(socket: &mut tcp::Socket<'static>, data: &[u8]) -> (r: Option<usize>)
    ensures
        match r {
            Some(n) => tcp_view(*old(socket)).may_send() && n == tcp_view(*old(socket)).room_for(
                data@.len(),
            ) && tcp_view(*final(socket)) == (TcpView {
                tx: tcp_view(*old(socket)).tx + data@.take(n as int),
                ..tcp_view(*old(socket))
            }),
            None => !tcp_view(*old(socket)).may_send() && tcp_view(*final(socket)) == tcp_view(
                *old(socket),
            ),
        },
{
    socket.send_slice(data).ok()
}

/// `tcp::Socket::recv_slice` into a buffer of `max` bytes. Trusted: where data may be
/// read, as much of the receive queue's front as fits is taken from it.
#[verifier::external_body]
pub(crate) fn tcp_recv(socket: &mut tcp::Socket<'static>, max: usize) -> (r: Option<Vec<u8>>)
    ensures
        match r {
            Some(data) => tcp_view(*old(socket)).may_recv() && data@.len() == (if tcp_view(
                *old(socket),
            ).rx.len() <= max {
                tcp_view(*old(socket)).rx.len()
            } else {
                max as nat
            }) && tcp_view(*old(socket)).rx == data@ + tcp_view(*final(socket)).rx && tcp_view(
                *final(socket),
            ) == (TcpView { rx: tcp_view(*final(socket)).rx, ..tcp_view(*old(socket)) }),
            None => !tcp_view(*old(socket)).may_recv() && tcp_view(*final(socket)) == tcp_view(
                *old(socket),
            ),
        },
{
    let mut data = vec![0u8; max];
    let n = socket.recv_slice(&mut data).ok()?;
    data.truncate(n);
    Some(data)
}

/// `udp::Socket::new` with buffers for that many datagrams and bytes. Trusted: the
/// socket is not bound, its queues are empty, both buffers are of that size, and the
/// whole buffer is room.
#[verifier::external_body]
pub(crate) fn new_udp(packets: usize, bytes: usize) -> (r: udp::Socket<'static>)
    requires
        packets > 0,
        bytes > 0,
    ensures
        udp_view(r) == (UdpView {
            bound: None,
            rx: Seq::empty(),
            tx: Seq::empty(),
            rx_packets: packets as nat,
            rx_bytes: bytes as nat,
            tx_packets: packets as nat,
            tx_room: bytes as int,
        }),
{
    udp::Socket::new(
        udp::PacketBuffer::new(vec![udp::PacketMetadata::EMPTY; packets], vec![0u8; bytes]),
        udp::PacketBuffer::new(vec![udp::PacketMetadata::EMPTY; packets], vec![0u8; bytes]),
    )
}

/// `udp::Socket::bind`. Trusted: a socket that is not bound becomes bound, unless the
/// port is 0.
#[verifier::external_body]
pub(crate) fn udp_bind(socket: &mut udp::Socket<'static>, local: Destination) -> (r: bool)
    requires
        udp_view(*old(socket)).bound is None,
    ensures
        r == (local.port != 0),
        udp_view(*final(socket)) == (if local.port != 0 {
            UdpView { bound: Some(local), ..udp_view(*old(socket)) }
        } else {
            udp_view(*old(socket))
        }),
{
    let addr = Some(IpAddress::Ipv4(Ipv4Address::from(local.ip)));
    socket.bind(IpListenEndpoint { addr, port: local.port }).is_ok()
}

/// `udp::Socket::send_slice`. Trusted: the datagram is queued exactly where the socket
/// is bound, the receiver has an address and a port, and there is room. Left open is how
/// much room there is afterwards, which depends on where in its ring the buffer stands.
#[verifier::external_body]
pub(crate) fn udp_send(
    socket: &mut udp::Socket<'static>,
    data: &[u8],
    dst: Destination,
) -> (r: bool)
    ensures
        r == udp_view(*old(socket)).can_queue(data@.len(), dst),
        udp_view(*final(socket)) == udp_view(*old(socket)).after_datagram(
            dst,
            data@,
            udp_view(*final(socket)).tx_room,
        ),
{
    let addr = IpAddress::Ipv4(Ipv4Address::from(dst.ip));
    socket.send_slice(data, IpEndpoint { addr, port: dst.port }).is_ok()
}

/// `udp::Socket::can_recv`. Trusted: it holds where there is a datagram to read.
#[verifier::external_body]
pub(crate) fn udp_can_recv(socket: &udp::Socket<'static>) -> (r: bool)
    ensures
        udp_view(*socket).rx.len() > 0 ==> r,
{
    socket.can_recv()
}

/// `udp::Socket::recv_slice` into a buffer of `max` bytes. Trusted: the first datagram
/// is taken from the queue, and handed out with its sender if it fits.
#[verifier::external_body]
pub(crate) fn udp_recv(socket: &mut udp::Socket<'static>, max: usize) -> (r: Option<
    (Destination, Vec<u8>),
>)
    ensures
        match r {
            Some((src, data)) => udp_view(*old(socket)).rx.len() > 0 && udp_view(
                *old(socket),
            ).rx[0] == (src, data@) && data@.len() <= max,
            None => udp_view(*old(socket)).rx.len() > 0 ==> udp_view(*old(socket)).rx[0].1.len()
                > max,
        },
        udp_view(*final(socket)) == (if udp_view(*old(socket)).rx.len() > 0 {
            UdpView {
                rx: udp_view(*old(socket)).rx.drop_first(),
                ..udp_view(*old(socket))
            }
        } else {
            udp_view(*old(socket))
        }),
{
    let mut data = vec![0u8; max];
    let (n, meta) = socket.recv_slice(&mut data).ok()?;
    data.truncate(n);
    let IpAddress::Ipv4(ip) = meta.endpoint.addr;
    Some((Destination { ip: ip.into(), port: meta.endpoint.port }, data))
}

} // verus!
