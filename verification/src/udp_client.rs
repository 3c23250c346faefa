//! A UDP socket with a fixed peer.

use crate::address::SocketAddress;
use crate::common::{parse_address, parse_ip_port};
use crate::outcome::IoFailure;
use crate::rokit_error::{failure, fatal, ErrorView, RokitError};
use crate::wire::{decode, report_count, reported_count, take_buffer, taken};
use vstd::prelude::*;
use vstd::utf8::{decode_utf8, valid_utf8};

verus! {

/// Milliseconds to sleep after a receive call that found no datagram.
pub const UDP_RETRY_MILLIS: u64 = 10;

/// Prefix of the message when the socket cannot be set up.
pub const UDP_CONNECT_ERROR: &'static str = "UDP连接错误:";

/// Prefix of the message when a send fails.
pub const UDP_WRITE_ERROR: &'static str = "UDP写入错误:";

/// Prefix of the message when a receive fails.
pub const UDP_READ_ERROR: &'static str = "UDP读取错误:";

/// Prefix of the message when a datagram is no text.
pub const UDP_DECODE_ERROR: &'static str = "UDP转码:";

/// Prefix of the message when receiving ends because the socket closed.
pub const UDP_CLOSED: &'static str = "UDP断开:";

/// A UDP socket associated with one remote address. The socket itself stays
/// with the driver.
#[derive(Clone, Copy, Debug, PartialEq, Eq, Structural)]
pub struct UdpClient {
    /// The remote address.
    pub socket_addr: SocketAddress,
    /// Set once the socket has been asked to stop receiving.
    pub closed: bool,
}

/// One received message.
#[derive(Clone, Debug, PartialEq, Eq)]
pub struct UdpClientReceive {
    /// Where the datagram came from.
    pub socket_addr: SocketAddress,
    /// Its text.
    pub result: String,
}

/// The mathematical content of a [`UdpClientReceive`].
pub struct ReceiveView {
    pub socket_addr: SocketAddress,
    pub result: Seq<char>,
}

impl View for UdpClientReceive {
    type V = ReceiveView;

    open spec fn view(&self) -> ReceiveView {
        ReceiveView { socket_addr: self.socket_addr, result: self.result@ }
    }
}

/// A datagram as the driver received it.
#[derive(Debug)]
pub struct Datagram {
    /// Where it came from.
    pub source: SocketAddress,
    /// What it held.
    pub bytes: Vec<u8>,
}

/// An attempt to set the socket up, and with it what the driver is to do
/// next.
#[derive(Debug)]
pub enum UdpConnect {
    /// Bind a UDP socket to the first address, the local one. The second,
    /// the remote one, waits.
    Binding(SocketAddress, SocketAddress),
    /// The socket is bound: associate it with this remote address.
    Connecting(SocketAddress),
    /// The socket has its peer: make it non-blocking.
    Configuring(SocketAddress),
    /// The socket stands.
    Connected(UdpClient),
    /// The attempt has failed for good.
    Failed(RokitError),
}

/// The mathematical content of a [`UdpConnect`].
pub enum UdpConnectView {
    Binding(SocketAddress, SocketAddress),
    Connecting(SocketAddress),
    Configuring(SocketAddress),
    Connected(UdpClient),
    Failed(ErrorView),
}

/// What [`UdpClient::read`] asks of the driver.
#[derive(Debug)]
pub enum UdpReadStep {
    /// Sleep for so many milliseconds, then call receive again.
    Retry(u64),
    /// Receiving is over, with this result.
    Done(Result<UdpClientReceive, RokitError>),
}

/// The mathematical content of a [`UdpReadStep`].
pub enum UdpReadStepView {
    Retry(u64),
    Done(Result<ReceiveView, ErrorView>),
}

impl View for UdpReadStep {
    type V = UdpReadStepView;

    open spec fn view(&self) -> UdpReadStepView {
        match *self {
            UdpReadStep::Retry(millis) => UdpReadStepView::Retry(millis),
            UdpReadStep::Done(Ok(received)) => UdpReadStepView::Done(Ok(received@)),
            UdpReadStep::Done(Err(e)) => UdpReadStepView::Done(Err(e@)),
        }
    }
}

/// The local address that the socket is bound to: port 34254 of the
/// loopback host.
pub open spec fn spec_local_address() -> SocketAddress {
    SocketAddress { a: 127, b: 0, c: 0, d: 1, port: 34254 }
}

/// Computes [`spec_local_address`].
pub fn local_address() -> (addr: SocketAddress)
    ensures
        addr == spec_local_address(),
{
    SocketAddress::new(127, 0, 0, 1, 34254)
}

/// The error that ends receiving on a closed socket or after an empty
/// datagram: it names the remote address.
pub open spec fn udp_closed(client: UdpClient) -> ErrorView {
    fatal(UDP_CLOSED@ + client.socket_addr.display_text())
}

/// The socket after it has been asked to stop.
pub open spec fn close_step(client: UdpClient) -> UdpClient {
    UdpClient { closed: true, ..client }
}

/// What the receive loop may answer to an event.
///
/// Of a datagram, one receive takes at most
/// [`crate::wire::READ_BUFFER_SIZE`] bytes. A datagram without bytes,
/// and any datagram that arrives when the socket is closed, ends receiving
/// with the non-ignorable error that names the remote address. Otherwise
/// bytes that are valid UTF-8 end it with their text and the datagram's
/// source; others with a non-ignorable error, whose message begins with
/// [`UDP_DECODE_ERROR`] and goes on with the decoder's words. A receive
/// call that would have blocked ends receiving if the socket is closed, and
/// else is repeated after a sleep of [`UDP_RETRY_MILLIS`]. Every other
/// failure ends receiving with the system's reason.
pub open spec fn receive_step(
    client: UdpClient,
    event: Result<Datagram, IoFailure>,
    step: UdpReadStepView,
) -> bool {
    match event {
        Ok(datagram) => {
            let bytes = taken(datagram.bytes@);
            if bytes.len() == 0 || client.closed {
                step == UdpReadStepView::Done(Err(udp_closed(client)))
            } else if valid_utf8(bytes) {
                step == UdpReadStepView::Done(
                    Ok(ReceiveView { socket_addr: datagram.source, result: decode_utf8(bytes) }),
                )
            } else {
                step matches UdpReadStepView::Done(Err(e)) && !e.ignore
                    && UDP_DECODE_ERROR@.is_prefix_of(e.msg)
            }
        },
        Err(f) => if !f.would_block {
            step == UdpReadStepView::Done(Err(fatal(UDP_READ_ERROR@ + f.reason@)))
        } else if client.closed {
            step == UdpReadStepView::Done(Err(udp_closed(client)))
        } else {
            step == UdpReadStepView::Retry(UDP_RETRY_MILLIS)
        },
    }
}

impl View for UdpConnect {
    type V = UdpConnectView;

    open spec fn view(&self) -> UdpConnectView {
        match *self {
            UdpConnect::Binding(local, addr) => UdpConnectView::Binding(local, addr),
            UdpConnect::Connecting(addr) => UdpConnectView::Connecting(addr),
            UdpConnect::Configuring(addr) => UdpConnectView::Configuring(addr),
            UdpConnect::Connected(client) => UdpConnectView::Connected(client),
            UdpConnect::Failed(e) => UdpConnectView::Failed(e@),
        }
    }
}

/// How an attempt to set the socket up starts: with the request to bind a
/// socket to [`spec_local_address`], or failed with the resolver's error.
pub open spec fn connect_start(ip: Seq<char>, port: Seq<char>) -> UdpConnectView {
    match parse_address(ip, port) {
        Ok(addr) => UdpConnectView::Binding(spec_local_address(), addr),
        Err(e) => UdpConnectView::Failed(e),
    }
}

/// How an attempt to set the socket up goes on when the socket call that
/// it asked for has ended with `outcome`. The first failure ends the
/// attempt, with the system's reason in the message; after the last call
/// has succeeded the socket stands, open. A finished attempt stays as it
/// is.
pub open spec fn connect_step(
    state: UdpConnectView,
    outcome: Result<(), IoFailure>,
) -> UdpConnectView {
    match state {
        UdpConnectView::Binding(_, addr) => match outcome {
            Ok(_) => UdpConnectView::Connecting(addr),
            Err(f) => UdpConnectView::Failed(fatal(UDP_CONNECT_ERROR@ + f.reason@)),
        },
        UdpConnectView::Connecting(addr) => match outcome {
            Ok(_) => UdpConnectView::Configuring(addr),
            Err(f) => UdpConnectView::Failed(fatal(UDP_CONNECT_ERROR@ + f.reason@)),
        },
        UdpConnectView::Configuring(addr) => match outcome {
            Ok(_) => UdpConnectView::Connected(UdpClient { socket_addr: addr, closed: false }),
            Err(f) => UdpConnectView::Failed(fatal(UDP_CONNECT_ERROR@ + f.reason@)),
        },
        UdpConnectView::Connected(_) => state,
        UdpConnectView::Failed(_) => state,
    }
}

impl UdpConnect {
    /// Takes the outcome of the socket call that this state asked for, and
    /// says what comes next, as [`connect_step`] says.
    pub fn advance(self, outcome: Result<(), IoFailure>) -> (next: UdpConnect)
        ensures
            next@ == connect_step(self@, outcome),
    {
        match self {
            UdpConnect::Binding(_, addr) => match outcome {
                Ok(_) => UdpConnect::Connecting(addr),
                Err(f) => UdpConnect::Failed(failure(UDP_CONNECT_ERROR, f.reason.as_str())),
            },
            UdpConnect::Connecting(addr) => match outcome {
                Ok(_) => UdpConnect::Configuring(addr),
                Err(f) => UdpConnect::Failed(failure(UDP_CONNECT_ERROR, f.reason.as_str())),
            },
            UdpConnect::Configuring(addr) => match outcome {
                Ok(_) => UdpConnect::Connected(UdpClient { socket_addr: addr, closed: false }),
                Err(f) => UdpConnect::Failed(failure(UDP_CONNECT_ERROR, f.reason.as_str())),
            },
            UdpConnect::Connected(client) => UdpConnect::Connected(client),
            UdpConnect::Failed(e) => UdpConnect::Failed(e),
        }
    }
}

impl UdpClient {
    /// Starts to set up a socket for the host and port as typed, as
    /// [`connect_start`] says.
    pub fn connect(ip: String, port: String) -> (start: UdpConnect)
        ensures
            start@ == connect_start(ip@, port@),
    {
        match parse_ip_port(ip, port) {
            Ok(addr) => UdpConnect::Binding(local_address(), addr),
            Err(e) => UdpConnect::Failed(e),
        }
    }

    /// Reports the send of one datagram with the bytes of `s`: the number
    /// of bytes that the local stack took, or a non-ignorable error with
    /// the system's reason.
    #[allow(unused_variables)]
    pub fn send(&mut self, s: String, outcome: Result<usize, IoFailure>) -> (r: Result<
        u32,
        RokitError,
    >)
        ensures
            *final(self) == *old(self),
            match outcome {
                Ok(written) => r == Ok::<u32, RokitError>(reported_count(written)),
                Err(f) => r matches Err(e) && e@ == fatal(UDP_WRITE_ERROR@ + f.reason@),
            },
    {
        match outcome {
            Ok(written) => Ok(report_count(written)),
            Err(f) => Err(failure(UDP_WRITE_ERROR, f.reason.as_str())),
        }
    }

    /// Takes one event of the receive loop and decides, as
    /// [`receive_step`] says.
    pub fn read(&mut self, event: Result<Datagram, IoFailure>) -> (step: UdpReadStep)
        ensures
            *final(self) == *old(self),
            receive_step(*old(self), event, step@),
    {
        match event {
            Ok(datagram) => {
                let bytes = take_buffer(&datagram.bytes);
                if bytes.len() == 0 || self.closed {
                    let place = self.socket_addr.display();
                    UdpReadStep::Done(Err(failure(UDP_CLOSED, place.as_str())))
                } else {
                    match decode(bytes, UDP_DECODE_ERROR) {
                        Ok(text) => UdpReadStep::Done(
                            Ok(UdpClientReceive { socket_addr: datagram.source, result: text }),
                        ),
                        Err(e) => UdpReadStep::Done(Err(e)),
                    }
                }
            },
            Err(f) => {
                if !f.would_block {
                    UdpReadStep::Done(Err(failure(UDP_READ_ERROR, f.reason.as_str())))
                } else if self.closed {
                    let place = self.socket_addr.display();
                    UdpReadStep::Done(Err(failure(UDP_CLOSED, place.as_str())))
                } else {
                    UdpReadStep::Retry(UDP_RETRY_MILLIS)
                }
            },
        }
    }

    /// Asks the socket to stop receiving. The receive loop ends at its
    /// next event.
    pub fn close(&mut self)
        ensures
            *final(self) == close_step(*old(self)),
    {
        self.closed = true;
    }
}

/// No socket stands half made. After the outcomes of the three socket
/// calls the attempt is over: the socket stands, open, with the peer that
/// host and port denote, exactly when they resolve and all three calls
/// succeeded; otherwise the attempt has failed with an error that is not
/// ignorable.
pub proof fn lemma_connect_is_all_or_nothing(
    ip: Seq<char>,
    port: Seq<char>,
    bound: Result<(), IoFailure>,
    associated: Result<(), IoFailure>,
    configured: Result<(), IoFailure>,
)
    ensures
        match connect_step(
            connect_step(connect_step(connect_start(ip, port), bound), associated),
            configured,
        ) {
            UdpConnectView::Connected(client) => bound is Ok && associated is Ok
                && configured is Ok && !client.closed && parse_address(ip, port) == Ok::<
                SocketAddress,
                ErrorView,
            >(client.socket_addr),
            UdpConnectView::Failed(e) => !e.ignore && !(bound is Ok && associated is Ok
                && configured is Ok && parse_address(ip, port) is Ok),
            _ => false,
        },
{
}

/// Once the socket is closed, receiving never sleeps again and never
/// succeeds: whatever the driver reports, the answer is a non-ignorable
/// error, and unless the receive call failed for another cause it is the
/// error that names the remote address.
pub proof fn lemma_receive_after_close(
    client: UdpClient,
    event: Result<Datagram, IoFailure>,
    step: UdpReadStepView,
)
    requires
        receive_step(close_step(client), event, step),
    ensures
        step matches UdpReadStepView::Done(Err(e)) && !e.ignore,
        (event is Ok || event->Err_0.would_block) ==> step == UdpReadStepView::Done(
            Err(fatal(UDP_CLOSED@ + client.socket_addr.display_text())),
        ),
{
}

/// Closing is final: a closed socket stays closed when closed again.
pub proof fn lemma_close_idempotent(client: UdpClient)
    ensures
        close_step(client).closed,
        close_step(close_step(client)) == close_step(client),
        close_step(client).socket_addr == client.socket_addr,
{
}

} // verus!
