//! Per-endpoint packet demultiplexing: remote address latching and
//! first-byte triage of inbound datagrams.
use vstd::prelude::*;
use vstd::slice::slice_to_vec;

verus! {

/// An IP address, as the socket layer reports it.
#[derive(Clone, Copy, Debug, PartialEq, Eq, Structural)]
pub enum IpAddress {
    V4(u32),
    V6 { ip: u128, flowinfo: u32, scope_id: u32 },
}

/// A transport address: an IP address and a UDP port. Port 0 stands for an
/// address that is not known yet.
#[derive(Clone, Copy, Debug, PartialEq, Eq, Structural)]
pub struct SocketAddress {
    pub ip: IpAddress,
    pub port: u16,
}

impl SocketAddress {
    pub open spec fn is_unspecified(self) -> bool {
        self.port == 0
    }
}

/// What the leading byte of a datagram says it carries.
#[derive(Clone, Copy, Debug, PartialEq, Eq, Structural)]
pub enum PacketClass {
    Stun,
    Dtls,
    Rtp,
    Unknown,
}

pub open spec fn class_of(b: u8) -> PacketClass {
    if b < 20 {
        PacketClass::Stun
    } else if b < 64 {
        PacketClass::Dtls
    } else if 128 <= b && b < 192 {
        PacketClass::Rtp
    } else {
        PacketClass::Unknown
    }
}

/// Classifies a datagram by its leading byte: `[0, 20)` STUN, `[20, 64)`
/// DTLS, `[128, 192)` RTP or RTCP, anything else unknown.
pub fn classify(first_byte: u8) -> (r: PacketClass)
    ensures
        r == class_of(first_byte),
{
    if first_byte < 20 {
        PacketClass::Stun
    } else if first_byte < 64 {
        PacketClass::Dtls
    } else if 128 <= first_byte && first_byte < 192 {
        PacketClass::Rtp
    } else {
        PacketClass::Unknown
    }
}

/// Where an inbound datagram goes.
#[derive(Clone, Copy, Debug, PartialEq, Eq, Structural)]
pub enum Route {
    /// Hand the datagram to the DTLS receiver.
    ToDtls,
    /// Hand the datagram to the RTP receiver.
    ToRtp,
    /// A DTLS datagram arrived with no DTLS receiver registered.
    DropNoDtlsReceiver,
    /// The datagram is dropped without notice (empty, unclaimed RTP, STUN or
    /// unknown traffic; STUN is the ICE agent's own business).
    Drop,
}

/// Errors of the send path.
#[derive(Clone, Copy, Debug, PartialEq, Eq, Structural)]
pub enum ConnError {
    /// No remote address has been signaled or latched yet.
    RemoteNotSet,
}

/// The route a datagram with leading byte `b` takes, given which receivers
/// are registered.
pub open spec fn route_of(b: u8, has_dtls: bool, has_rtp: bool) -> Route {
    match class_of(b) {
        PacketClass::Dtls => if has_dtls {
            Route::ToDtls
        } else {
            Route::DropNoDtlsReceiver
        },
        PacketClass::Rtp => if has_rtp {
            Route::ToRtp
        } else {
            Route::Drop
        },
        _ => Route::Drop,
    }
}

/// An outbound datagram and its destination.
pub struct Datagram {
    pub destination: SocketAddress,
    pub data: Vec<u8>,
}

/// One ICE connection to a remote endpoint: its current remote address and
/// the upper-layer receivers that inbound datagrams are handed to.
pub struct IceConn<R> {
    pub remote_addr: SocketAddress,
    pub dtls_receiver: Option<R>,
    pub rtp_receiver: Option<R>,
}

impl<R> IceConn<R> {
    /// A connection to `remote_addr`, with no receiver registered.
    pub fn new(remote_addr: SocketAddress) -> (r: Self)
        ensures
            r.remote_addr == remote_addr,
            r.dtls_receiver is None,
            r.rtp_receiver is None,
    {
        IceConn { remote_addr, dtls_receiver: None, rtp_receiver: None }
    }

    pub fn set_dtls_receiver(&mut self, receiver: R)
        ensures
            final(self).dtls_receiver == Some(receiver),
            final(self).rtp_receiver == old(self).rtp_receiver,
            final(self).remote_addr == old(self).remote_addr,
    {
        self.dtls_receiver = Some(receiver);
    }

    pub fn set_rtp_receiver(&mut self, receiver: R)
        ensures
            final(self).rtp_receiver == Some(receiver),
            final(self).dtls_receiver == old(self).dtls_receiver,
            final(self).remote_addr == old(self).remote_addr,
    {
        self.rtp_receiver = Some(receiver);
    }

    /// The datagram to put on the socket for `buf`: addressed to the remote
    /// address, or `RemoteNotSet` while that address is unspecified.
    pub fn send(&self, buf: &[u8]) -> (r: Result<Datagram, ConnError>)
        ensures
            self.remote_addr.is_unspecified() ==> r == Err::<Datagram, ConnError>(
                ConnError::RemoteNotSet,
            ),
            !self.remote_addr.is_unspecified() ==> (r matches Ok(d) && d.destination
                == self.remote_addr && d.data@ == buf@),
    {
        if self.remote_addr.port == 0 {
            Err(ConnError::RemoteNotSet)
        } else {
            Ok(Datagram { destination: self.remote_addr, data: slice_to_vec(buf) })
        }
    }

    /// Takes in a datagram from `source`: the remote address becomes
    /// `source` (latching an unspecified address, or following the peer
    /// to a new one), and the datagram is routed by its leading byte.
    pub fn receive(&mut self, packet: &[u8], source: SocketAddress) -> (r: Route)
        ensures
            final(self).remote_addr == source,
            final(self).dtls_receiver == old(self).dtls_receiver,
            final(self).rtp_receiver == old(self).rtp_receiver,
            packet@.len() == 0 ==> r == Route::Drop,
            packet@.len() > 0 ==> r == route_of(
                packet@[0],
                old(self).dtls_receiver is Some,
                old(self).rtp_receiver is Some,
            ),
    {
        if self.remote_addr.port == 0 || self.remote_addr != source {
            self.remote_addr = source;
        }
        if packet.len() == 0 {
            return Route::Drop;
        }
        match classify(packet[0]) {
            PacketClass::Dtls => if self.dtls_receiver.is_some() {
                Route::ToDtls
            } else {
                Route::DropNoDtlsReceiver
            },
            PacketClass::Rtp => if self.rtp_receiver.is_some() {
                Route::ToRtp
            } else {
                Route::Drop
            },
            _ => Route::Drop,
        }
    }
}

/// Every datagram whose leading byte lies in `[128, 192)` goes to the RTP
/// receiver when one is registered, and to nothing else: a route names one
/// consumer, so the receiver is called exactly once.
pub proof fn rtp_range_reaches_rtp_receiver(b: u8, has_dtls: bool)
    requires
        128 <= b < 192,
    ensures
        route_of(b, has_dtls, true) == Route::ToRtp,
        route_of(b, has_dtls, false) == Route::Drop,
{
}

} // verus!
