//! One established TCP connection, seen from either end.

use crate::address::SocketAddress;
use crate::common::{parse_address, parse_ip_port};
use crate::outcome::IoFailure;
use crate::rokit_error::{failure, fatal, text_view, ErrorView, RokitError};
use crate::wire::{
    decode, lemma_taken_twice, report_count, reported_count, take_buffer, taken, wire_bytes,
    READ_BUFFER_SIZE,
};
use vstd::prelude::*;
use vstd::string::StringExecFns;
use vstd::utf8::{decode_utf8, encode_utf8_decode_utf8, encode_utf8_valid_utf8, valid_utf8};

verus! {

/// Milliseconds after which a write to a stalled peer gives up.
pub const WRITE_TIMEOUT_MILLIS: u64 = 10;

/// Prefix of the message when a connection cannot be set up.
pub const TCP_CONNECT_ERROR: &'static str = "TCP连接错误:";

/// Prefix of the message when a write fails.
pub const TCP_WRITE_ERROR: &'static str = "TCP写入错误:";

/// Prefix of the message when a read fails.
pub const TCP_READ_ERROR: &'static str = "TCP读取错误:";

/// Prefix of the message when received bytes are no text.
pub const TCP_DECODE_ERROR: &'static str = "TCP转码:";

/// Prefix of the message when the shutdown fails.
pub const TCP_DISCONNECT_ERROR: &'static str = "TCP断开错误:";

/// Prefix of the message when the peer has closed the connection.
pub const TCP_PEER_CLOSED: &'static str = "TCP断开";

/// One established TCP connection: the client's end, or a peer that a
/// listener accepted. The stream itself stays with the driver.
#[derive(Clone, Copy, Debug, PartialEq, Eq, Structural)]
pub struct TcpClient {
    /// The remote address.
    pub socket_addr: SocketAddress,
}

/// An attempt to connect, and with it what the driver is to do next.
#[derive(Debug)]
pub enum TcpConnect {
    /// Open a stream to this address.
    Opening(SocketAddress),
    /// The stream to this address is open: set its write timeout to so
    /// many milliseconds.
    Configuring(SocketAddress, u64),
    /// The connection stands.
    Connected(TcpClient),
    /// The attempt has failed for good.
    Failed(RokitError),
}

/// The mathematical content of a [`TcpConnect`].
pub enum TcpConnectView {
    Opening(SocketAddress),
    Configuring(SocketAddress, u64),
    Connected(TcpClient),
    Failed(ErrorView),
}

/// The error for a socket call that failed: the prefix, then the system's
/// reason. It is ignorable exactly when the call would have blocked.
pub open spec fn io_error(prefix: Seq<char>, f: IoFailure) -> ErrorView {
    ErrorView { msg: prefix + f.reason@, ignore: f.would_block }
}

/// What a read by the peer at `addr` may return for an outcome.
///
/// Of the bytes that arrived, one read takes at most [`READ_BUFFER_SIZE`].
/// No bytes mean that the peer has closed the connection: a non-ignorable
/// error that names the address. Bytes that are valid UTF-8 are returned as
/// the text they encode; others are a non-ignorable error, whose message
/// begins with [`TCP_DECODE_ERROR`] and goes on with the decoder's words. A
/// failed read is an error with the system's reason, ignorable exactly when
/// the read would have blocked.
pub open spec fn read_result(
    addr: SocketAddress,
    outcome: Result<Vec<u8>, IoFailure>,
    r: Result<Seq<char>, ErrorView>,
) -> bool {
    match outcome {
        Ok(arrived) => {
            let bytes = taken(arrived@);
            if bytes.len() == 0 {
                r == Err::<Seq<char>, ErrorView>(fatal(TCP_PEER_CLOSED@ + addr.display_text()))
            } else if valid_utf8(bytes) {
                r == Ok::<Seq<char>, ErrorView>(decode_utf8(bytes))
            } else {
                r matches Err(e) && !e.ignore && TCP_DECODE_ERROR@.is_prefix_of(e.msg)
            }
        },
        Err(f) => r == Err::<Seq<char>, ErrorView>(io_error(TCP_READ_ERROR@, f)),
    }
}

impl View for TcpConnect {
    type V = TcpConnectView;

    open spec fn view(&self) -> TcpConnectView {
        match *self {
            TcpConnect::Opening(addr) => TcpConnectView::Opening(addr),
            TcpConnect::Configuring(addr, millis) => TcpConnectView::Configuring(addr, millis),
            TcpConnect::Connected(client) => TcpConnectView::Connected(client),
            TcpConnect::Failed(e) => TcpConnectView::Failed(e@),
        }
    }
}

/// How an attempt to connect starts: with the request to open a stream to
/// the address that host and port denote, or failed with the resolver's
/// error.
pub open spec fn connect_start(ip: Seq<char>, port: Seq<char>) -> TcpConnectView {
    match parse_address(ip, port) {
        Ok(addr) => TcpConnectView::Opening(addr),
        Err(e) => TcpConnectView::Failed(e),
    }
}

/// How an attempt to connect goes on when the socket call that it asked
/// for has ended with `outcome`. Once the stream is open, its write
/// timeout is to be set to [`WRITE_TIMEOUT_MILLIS`]. The first failure ends
/// the attempt, with the system's reason in the message; after the last
/// call has succeeded the connection stands. A finished attempt stays as it
/// is.
pub open spec fn connect_step(
    state: TcpConnectView,
    outcome: Result<(), IoFailure>,
) -> TcpConnectView {
    match state {
        TcpConnectView::Opening(addr) => match outcome {
            Ok(_) => TcpConnectView::Configuring(addr, WRITE_TIMEOUT_MILLIS),
            Err(f) => TcpConnectView::Failed(fatal(TCP_CONNECT_ERROR@ + f.reason@)),
        },
        TcpConnectView::Configuring(addr, _) => match outcome {
            Ok(_) => TcpConnectView::Connected(TcpClient { socket_addr: addr }),
            Err(f) => TcpConnectView::Failed(fatal(TCP_CONNECT_ERROR@ + f.reason@)),
        },
        TcpConnectView::Connected(_) => state,
        TcpConnectView::Failed(_) => state,
    }
}

impl TcpConnect {
    /// Takes the outcome of the socket call that this state asked for, and
    /// says what comes next, as [`connect_step`] says.
    pub fn advance(self, outcome: Result<(), IoFailure>) -> (next: TcpConnect)
        ensures
            next@ == connect_step(self@, outcome),
    {
        match self {
            TcpConnect::Opening(addr) => match outcome {
                Ok(_) => TcpConnect::Configuring(addr, WRITE_TIMEOUT_MILLIS),
                Err(f) => TcpConnect::Failed(failure(TCP_CONNECT_ERROR, f.reason.as_str())),
            },
            TcpConnect::Configuring(addr, _) => match outcome {
                Ok(_) => TcpConnect::Connected(TcpClient { socket_addr: addr }),
                Err(f) => TcpConnect::Failed(failure(TCP_CONNECT_ERROR, f.reason.as_str())),
            },
            TcpConnect::Connected(client) => TcpConnect::Connected(client),
            TcpConnect::Failed(e) => TcpConnect::Failed(e),
        }
    }
}

impl TcpClient {
    /// Starts a connection to the host and port as typed, as
    /// [`connect_start`] says.
    pub fn connect(ip: String, port: String) -> (start: TcpConnect)
        ensures
            start@ == connect_start(ip@, port@),
    {
        match parse_ip_port(ip, port) {
            Ok(addr) => TcpConnect::Opening(addr),
            Err(e) => TcpConnect::Failed(e),
        }
    }

    /// Reports one write of the bytes of `s`: the number of bytes that were
    /// written, which may be fewer than there are, or a non-ignorable error
    /// with the system's reason.
    #[allow(unused_variables)]
    pub fn send(&mut self, s: String, outcome: Result<usize, IoFailure>) -> (r: Result<
        u32,
        RokitError,
    >)
        ensures
            *final(self) == *old(self),
            match outcome {
                Ok(written) => r == Ok::<u32, RokitError>(reported_count(written)),
                Err(f) => r matches Err(e) && e@ == fatal(TCP_WRITE_ERROR@ + f.reason@),
            },
    {
        match outcome {
            Ok(written) => Ok(report_count(written)),
            Err(f) => Err(failure(TCP_WRITE_ERROR, f.reason.as_str())),
        }
    }

    /// Reports one read attempt, given the bytes that arrived or the
    /// failure, as [`read_result`] says.
    pub fn read(&mut self, outcome: Result<Vec<u8>, IoFailure>) -> (r: Result<String, RokitError>)
        ensures
            *final(self) == *old(self),
            read_result(old(self).socket_addr, outcome, text_view(r)),
    {
        match outcome {
            Ok(arrived) => {
                let bytes = take_buffer(&arrived);
                if bytes.len() == 0 {
                    let place = self.socket_addr.display();
                    Err(failure(TCP_PEER_CLOSED, place.as_str()))
                } else {
                    decode(bytes, TCP_DECODE_ERROR)
                }
            },
            Err(f) => Err(
                RokitError::new(
                    f.would_block,
                    String::from_str(TCP_READ_ERROR).concat(f.reason.as_str()),
                ),
            ),
        }
    }

    /// Reports the shutdown of both directions of the stream: done, or a
    /// non-ignorable error with the system's reason.
    pub fn disconnect(&mut self, outcome: Result<(), IoFailure>) -> (r: Result<(), RokitError>)
        ensures
            *final(self) == *old(self),
            match outcome {
                Ok(_) => r is Ok,
                Err(f) => r matches Err(e) && e@ == fatal(TCP_DISCONNECT_ERROR@ + f.reason@),
            },
    {
        match outcome {
            Ok(_) => Ok(()),
            Err(f) => Err(failure(TCP_DISCONNECT_ERROR, f.reason.as_str())),
        }
    }
}

/// No connection stands half made. After the outcomes of the two socket
/// calls the attempt is over: the connection stands, to the address that
/// host and port denote, exactly when they resolve and both calls
/// succeeded; otherwise the attempt has failed with an error that is not
/// ignorable.
pub proof fn lemma_connect_is_all_or_nothing(
    ip: Seq<char>,
    port: Seq<char>,
    opened: Result<(), IoFailure>,
    configured: Result<(), IoFailure>,
)
    ensures
        match connect_step(connect_step(connect_start(ip, port), opened), configured) {
            TcpConnectView::Connected(client) => opened is Ok && configured is Ok && parse_address(
                ip,
                port,
            ) == Ok::<SocketAddress, ErrorView>(client.socket_addr),
            TcpConnectView::Failed(e) => !e.ignore && !(opened is Ok && configured is Ok
                && parse_address(ip, port) is Ok),
            _ => false,
        },
{
}

/// A text that one peer sends and the other takes in one read arrives as it
/// was sent, provided it is not empty and its bytes fit the read buffer:
/// the read can return nothing but that text.
pub proof fn lemma_round_trip(
    addr: SocketAddress,
    text: Seq<char>,
    arrived: Vec<u8>,
    r: Result<Seq<char>, ErrorView>,
)
    requires
        arrived@ == wire_bytes(text),
        0 < arrived@.len() <= READ_BUFFER_SIZE,
        read_result(addr, Ok(arrived), r),
    ensures
        r == Ok::<Seq<char>, ErrorView>(text),
{
    encode_utf8_valid_utf8(text);
    encode_utf8_decode_utf8(text);
}

/// A read sees no further than its buffer: what arrived beyond
/// [`READ_BUFFER_SIZE`] bytes never changes what the read may return.
pub proof fn lemma_read_sees_one_buffer(
    addr: SocketAddress,
    arrived: Vec<u8>,
    buffer: Vec<u8>,
    r: Result<Seq<char>, ErrorView>,
)
    requires
        buffer@ == taken(arrived@),
    ensures
        read_result(addr, Ok(arrived), r) == read_result(addr, Ok(buffer), r),
{
    lemma_taken_twice(arrived@);
}

/// A read is never silent about a closed connection: when no bytes
/// arrived, the error is not ignorable and names the peer's address.
pub proof fn lemma_peer_closed(
    addr: SocketAddress,
    arrived: Vec<u8>,
    r: Result<Seq<char>, ErrorView>,
)
    requires
        arrived@.len() == 0,
        read_result(addr, Ok(arrived), r),
    ensures
        r == Err::<Seq<char>, ErrorView>(fatal(TCP_PEER_CLOSED@ + addr.display_text())),
{
}

} // verus!
