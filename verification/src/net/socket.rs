//! Sockets: addresses, TCP and UDP sockets and the socket table.

use vstd::prelude::*;
use super::arp::Ipv4Address;
use super::tcp::{spec_tcp_close, TcpConnection, TcpState};
use super::udp::UdpSocket;

verus! {

/// Address families.
#[derive(Debug, Clone, Copy, PartialEq, Eq, Structural)]
pub enum SocketDomain {
    Inet,
    Inet6,
}

/// Socket types.
#[derive(Debug, Clone, Copy, PartialEq, Eq, Structural)]
pub enum SocketType {
    Stream,
    Datagram,
    Raw,
}

/// Socket protocols.
#[derive(Debug, Clone, Copy, PartialEq, Eq, Structural)]
pub enum SocketProtocol {
    Tcp,
    Udp,
    Icmp,
}

/// An IPv4 address and port.
#[derive(Debug, Clone, Copy, PartialEq, Eq)]
pub struct SocketAddr {
    pub addr: Ipv4Address,
    pub port: u16,
}

impl SocketAddr {
    /// The endpoint `addr:port`.
    pub fn new(addr: Ipv4Address, port: u16) -> (r: Self)
        ensures
            r.addr == addr,
            r.port == port,
    {
        SocketAddr { addr, port }
    }
}

/// Socket states.
#[derive(Debug, Clone, Copy, PartialEq, Eq, Structural)]
pub enum SocketState {
    Unbound,
    Bound,
    Listening,
    Connected,
    Closed,
}

/// A socket of either kind.
pub enum Socket {
    Tcp(TcpSocket),
    Udp(UdpSocketWrapper),
}

/// A TCP socket.
pub struct TcpSocket {
    pub connection: Option<TcpConnection>,
    pub state: SocketState,
    pub local_addr: Option<SocketAddr>,
    pub remote_addr: Option<SocketAddr>,
}

impl TcpSocket {
    /// An unbound socket without a connection.
    pub fn new() -> (r: Self)
        ensures
            r.connection is None,
            r.state == SocketState::Unbound,
            r.local_addr is None,
            r.remote_addr is None,
    {
        TcpSocket { connection: None, state: SocketState::Unbound, local_addr: None, remote_addr: None }
    }

    /// Binds an unbound socket to `addr`.
    pub fn bind(&mut self, addr: SocketAddr) -> (r: Result<(), &'static str>)
        ensures
            old(self).state == SocketState::Unbound ==> r is Ok && final(self).local_addr == Some(addr)
                && final(self).state == SocketState::Bound && final(self).remote_addr == old(self).remote_addr,
            old(self).state != SocketState::Unbound ==> r is Err && r->Err_0 == "Socket already bound"
                && final(self).state == old(self).state && final(self).local_addr == old(self).local_addr,
    {
        if self.state != SocketState::Unbound {
            return Err("Socket already bound");
        }
        self.local_addr = Some(addr);
        self.state = SocketState::Bound;
        Ok(())
    }

    /// Starts listening on a bound socket.
    pub fn listen(&mut self) -> (r: Result<(), &'static str>)
        ensures
            old(self).state == SocketState::Bound ==> r is Ok && final(self).state == SocketState::Listening,
            old(self).state != SocketState::Bound ==> r is Err && r->Err_0 == "Socket must be bound before listening"
                && final(self).state == old(self).state,
            final(self).local_addr == old(self).local_addr,
            final(self).remote_addr == old(self).remote_addr,
            final(self).connection == old(self).connection,
            r is Err ==> *final(self) == *old(self),
    {
        if self.state != SocketState::Bound {
            return Err("Socket must be bound before listening");
        }
        self.state = SocketState::Listening;
        Ok(())
    }

    /// Opens a connection from the bound address to `remote_addr`; fails
    /// when the socket has no local address.
    pub fn connect(&mut self, remote_addr: SocketAddr) -> (r: Result<(), &'static str>)
        ensures
            match old(self).local_addr {
                None => r is Err && r->Err_0 == "Socket must be bound" && final(self).state == old(self).state,
                Some(l) => {
                    &&& r is Ok
                    &&& final(self).state == SocketState::Connected
                    &&& final(self).remote_addr == Some(remote_addr)
                    &&& final(self).connection is Some
                    &&& final(self).connection->0.state == TcpState::SynSent
                    &&& final(self).connection->0.send_seq == 1000
                    &&& final(self).connection->0.local_addr == l.addr
                    &&& final(self).connection->0.local_port == l.port
                    &&& final(self).connection->0.remote_addr == remote_addr.addr
                    &&& final(self).connection->0.remote_port == remote_addr.port
                    &&& final(self).connection->0.send_buffer@ == Seq::<u8>::empty()
                    &&& final(self).connection->0.recv_buffer@ == Seq::<u8>::empty()
                },
            },
    {
        let local_addr = match self.local_addr {
            Some(a) => a,
            None => return Err("Socket must be bound"),
        };
        let mut connection = TcpConnection::new(local_addr.addr, local_addr.port, remote_addr.addr, remote_addr.port);
        connection.connect();
        self.connection = Some(connection);
        self.remote_addr = Some(remote_addr);
        self.state = SocketState::Connected;
        Ok(())
    }

    /// Queues `data` for sending; returns its length.
    pub fn send(&mut self, data: &[u8]) -> (r: Result<usize, &'static str>)
        ensures
            old(self).state != SocketState::Connected ==> r is Err && r->Err_0 == "Socket not connected",
            old(self).state == SocketState::Connected && old(self).connection is None ==> r is Err && r->Err_0
                == "No connection",
            old(self).state == SocketState::Connected && old(self).connection is Some ==> ({
                let c = old(self).connection->0;
                &&& r == Ok::<usize, &'static str>(data@.len() as usize)
                &&& final(self).connection is Some
                &&& final(self).connection->0.send_buffer@ == c.send_buffer@ + data@
                &&& final(self).connection->0.recv_buffer@ == c.recv_buffer@
                &&& final(self).connection->0.state == c.state
            }),
            final(self).state == old(self).state,
    {
        if self.state != SocketState::Connected {
            return Err("Socket not connected");
        }
        match &mut self.connection {
            Some(connection) => {
                let ghost before = connection.send_buffer@;
                let ghost rb = connection.recv_buffer@;
                let ghost st = connection.state;
                let mut i: usize = 0;
                while i < data.len()
                    invariant
                        0 <= i <= data@.len(),
                        connection.send_buffer@ == before + data@.take(i as int),
                        connection.recv_buffer@ == rb,
                        connection.state == st,
                    decreases data@.len() - i,
                {
                    connection.send_buffer.push_back(data[i]);
                    assert(connection.send_buffer@ =~= before + data@.take(i as int + 1));
                    i = i + 1;
                }
                assert(data@.take(data@.len() as int) =~= data@);
                Ok(data.len())
            },
            None => Err("No connection"),
        }
    }

    /// Moves received bytes into `buffer`, as many as fit; returns their
    /// number.
    pub fn recv(&mut self, buffer: &mut [u8]) -> (r: Result<usize, &'static str>)
        ensures
            old(self).state != SocketState::Connected ==> r is Err && r->Err_0 == "Socket not connected",
            old(self).state == SocketState::Connected && old(self).connection is None ==> r is Err && r->Err_0
                == "No connection",
            old(self).state == SocketState::Connected && old(self).connection is Some ==> ({
                let c = old(self).connection->0;
                let n = if old(buffer)@.len() < c.recv_buffer@.len() { old(buffer)@.len() } else { c.recv_buffer@.len() };
                &&& r == Ok::<usize, &'static str>(n as usize)
                &&& final(buffer)@ == c.recv_buffer@.take(n as int) + old(buffer)@.skip(n as int)
                &&& final(self).connection is Some
                &&& final(self).connection->0.recv_buffer@ == c.recv_buffer@.skip(n as int)
                &&& final(self).connection->0.send_buffer@ == c.send_buffer@
            }),
            final(self).state == old(self).state,
            !(old(self).state == SocketState::Connected && old(self).connection is Some) ==> final(buffer)@ == old(buffer)@,
    {
        if self.state != SocketState::Connected {
            return Err("Socket not connected");
        }
        match &mut self.connection {
            Some(connection) => {
                let len = if buffer.len() < connection.recv_buffer.len() { buffer.len() } else { connection.recv_buffer.len() };
                let ghost rb = connection.recv_buffer@;
                let ghost ob = buffer@;
                let mut i: usize = 0;
                while i < len
                    invariant
                        0 <= i <= len,
                        len <= rb.len(),
                        len <= ob.len(),
                        buffer@.len() == ob.len(),
                        connection.recv_buffer@ == rb.skip(i as int),
                        buffer@ == rb.take(i as int) + ob.skip(i as int),
                        connection.send_buffer@ == old(self).connection->0.send_buffer@,
                    decreases len - i,
                {
                    let b = connection.recv_buffer.pop_front().unwrap();
                    buffer[i] = b;
                    assert(connection.recv_buffer@ =~= rb.skip(i as int + 1));
                    assert(buffer@ =~= rb.take(i as int + 1) + ob.skip(i as int + 1));
                    i = i + 1;
                }
                Ok(len)
            },
            None => Err("No connection"),
        }
    }

    /// Closes the socket, starting a close of its connection.
    pub fn close(&mut self)
        ensures
            final(self).state == SocketState::Closed,
            old(self).connection is Some ==> final(self).connection is Some && final(self).connection->0.state
                == spec_tcp_close(old(self).connection->0.state),
            old(self).connection is None ==> final(self).connection is None,
    {
        match &mut self.connection {
            Some(conn) => conn.close(),
            None => {},
        }
        self.state = SocketState::Closed;
    }
}

/// A UDP socket with its state.
pub struct UdpSocketWrapper {
    pub socket: UdpSocket,
    pub state: SocketState,
}

impl UdpSocketWrapper {
    /// An unbound socket at 0.0.0.0:0.
    pub fn new() -> (r: Self)
        ensures
            r.state == SocketState::Unbound,
            r.socket.local_addr.0@ == seq![0u8, 0u8, 0u8, 0u8],
            r.socket.local_port == 0,
            r.socket.remote_addr is None,
    {
        UdpSocketWrapper { socket: UdpSocket::new(Ipv4Address::new(0, 0, 0, 0), 0), state: SocketState::Unbound }
    }

    /// Binds an unbound socket to `addr`.
    pub fn bind(&mut self, addr: SocketAddr) -> (r: Result<(), &'static str>)
        ensures
            old(self).state == SocketState::Unbound ==> r is Ok && final(self).state == SocketState::Bound
                && final(self).socket.local_addr == addr.addr && final(self).socket.local_port == addr.port,
            old(self).state != SocketState::Unbound ==> r is Err && r->Err_0 == "Socket already bound"
                && final(self).state == old(self).state,
    {
        if self.state != SocketState::Unbound {
            return Err("Socket already bound");
        }
        self.socket.bind(addr.addr, addr.port);
        self.state = SocketState::Bound;
        Ok(())
    }

    /// Sets the peer; always succeeds.
    pub fn connect(&mut self, remote_addr: SocketAddr) -> (r: Result<(), &'static str>)
        ensures
            r is Ok,
            final(self).state == SocketState::Connected,
            final(self).socket.remote_addr == Some(remote_addr.addr),
            final(self).socket.remote_port == Some(remote_addr.port),
    {
        self.socket.connect(remote_addr.addr, remote_addr.port);
        self.state = SocketState::Connected;
        Ok(())
    }

    /// Sends a datagram: fails on an unbound socket, otherwise reports 0
    /// bytes sent (no device transmits yet).
    pub fn sendto(&mut self, _data: &[u8], _addr: SocketAddr) -> (r: Result<usize, &'static str>)
        ensures
            old(self).state == SocketState::Unbound ==> r is Err && r->Err_0 == "Socket not bound",
            old(self).state != SocketState::Unbound ==> r == Ok::<usize, &'static str>(0),
            *final(self) == *old(self),
    {
        if self.state == SocketState::Unbound {
            return Err("Socket not bound");
        }
        Ok(0)
    }

    /// Receives a datagram: fails on an unbound socket, and otherwise as
    /// receiving is not implemented.
    pub fn recvfrom(&mut self, _buffer: &mut [u8]) -> (r: Result<(usize, SocketAddr), &'static str>)
        ensures
            old(self).state == SocketState::Unbound ==> r is Err && r->Err_0 == "Socket not bound",
            old(self).state != SocketState::Unbound ==> r is Err && r->Err_0 == "Not implemented",
            *final(self) == *old(self),
            final(_buffer)@ == old(_buffer)@,
    {
        if self.state == SocketState::Unbound {
            return Err("Socket not bound");
        }
        Err("Not implemented")
    }

    /// Closes the socket.
    pub fn close(&mut self)
        ensures
            final(self).state == SocketState::Closed,
    {
        self.state = SocketState::Closed;
    }
}

/// The state of a socket of either kind.
pub open spec fn spec_socket_state(s: Socket) -> SocketState {
    match s {
        Socket::Tcp(t) => t.state,
        Socket::Udp(u) => u.state,
    }
}

/// The sockets of the system; a socket's descriptor is its index.
pub struct SocketManager {
    sockets: Vec<Socket>,
}

impl View for SocketManager {
    type V = Seq<Socket>;

    closed spec fn view(&self) -> Seq<Socket> {
        self.sockets@
    }
}

impl SocketManager {
    /// No sockets.
    pub fn new() -> (r: Self)
        ensures
            r@ == Seq::<Socket>::empty(),
    {
        SocketManager { sockets: Vec::new() }
    }

    /// Creates a socket and returns its descriptor (the next index). Only
    /// IPv4 stream (TCP) and datagram (UDP) sockets are supported.
    pub fn socket(&mut self, domain: SocketDomain, socket_type: SocketType, _protocol: SocketProtocol) -> (r: Result<usize, &'static str>)
        ensures
            domain != SocketDomain::Inet ==> r is Err && r->Err_0 == "Only IPv4 supported" && final(self)@ == old(self)@,
            domain == SocketDomain::Inet && socket_type == SocketType::Raw ==> r is Err && r->Err_0
                == "Raw sockets not implemented" && final(self)@ == old(self)@,
            domain == SocketDomain::Inet && socket_type != SocketType::Raw ==> r == Ok::<usize, &'static str>(old(self)@.len() as usize)
                && final(self)@.len() == old(self)@.len() + 1 && final(self)@.take(old(self)@.len() as int) == old(self)@
                && spec_socket_state(final(self)@.last()) == SocketState::Unbound && (socket_type == SocketType::Stream
                <==> final(self)@.last() is Tcp),
    {
        if domain != SocketDomain::Inet {
            return Err("Only IPv4 supported");
        }
        let socket = match socket_type {
            SocketType::Stream => Socket::Tcp(TcpSocket::new()),
            SocketType::Datagram => Socket::Udp(UdpSocketWrapper::new()),
            SocketType::Raw => return Err("Raw sockets not implemented"),
        };
        let fd = self.sockets.len();
        self.sockets.push(socket);
        assert(self.sockets@.take(fd as int) =~= old(self)@);
        Ok(fd)
    }

    /// The socket with descriptor `fd`.
    pub fn get_socket(&mut self, fd: usize) -> (r: Option<&mut Socket>)
        ensures
            fd < old(self)@.len() ==> r is Some && *(r->0) == old(self)@[fd as int] && final(self)@ == old(self)@.update(
                fd as int,
                *final(r->0),
            ),
            fd >= old(self)@.len() ==> r is None && final(self)@ == old(self)@,
    {
        if fd < self.sockets.len() {
            Some(&mut self.sockets[fd])
        } else {
            None
        }
    }

    /// Closes the socket with descriptor `fd`; fails on an unknown descriptor.
    pub fn close(&mut self, fd: usize) -> (r: Result<(), &'static str>)
        ensures
            fd >= old(self)@.len() ==> r is Err && r->Err_0 == "Invalid socket descriptor" && final(self)@ == old(self)@,
            fd < old(self)@.len() ==> r is Ok && final(self)@.len() == old(self)@.len() && spec_socket_state(
                final(self)@[fd as int],
            ) == SocketState::Closed && forall|i: int|
                0 <= i < old(self)@.len() && i != fd ==> final(self)@[i] == old(self)@[i],
    {
        if fd >= self.sockets.len() {
            return Err("Invalid socket descriptor");
        }
        match &mut self.sockets[fd] {
            Socket::Tcp(tcp) => tcp.close(),
            Socket::Udp(udp) => udp.close(),
        }
        Ok(())
    }
}

} // verus!
