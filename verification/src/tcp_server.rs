//! A TCP listener with the registry of the peers it has accepted.

use crate::address::SocketAddress;
use crate::common::{parse_address, parse_ip_port};
use crate::outcome::IoFailure;
use crate::registry::Registry;
use crate::rokit_error::{failure, fatal, ErrorView, RokitError};
use crate::tcp_client::{TcpClient, TCP_CONNECT_ERROR, TCP_WRITE_ERROR, WRITE_TIMEOUT_MILLIS};
use crate::wire::{report_count, reported_count};
use vstd::prelude::*;
use vstd::string::StringExecFns;

verus! {

/// Milliseconds to sleep after an accept call that found no connection.
pub const ACCEPT_RETRY_MILLIS: u64 = 20;

/// Prefix of the message when the listener cannot be set up.
pub const TCP_LISTEN_ERROR: &'static str = "TCP监听错误:";

/// Prefix of the message when accepting ends because the listener closed.
pub const TCP_SERVER_CLOSED: &'static str = "TCP服务器关闭:";

/// A listening socket with its accepted peers. The socket itself stays with
/// the driver.
#[derive(Debug)]
pub struct TcpServer {
    /// The address listened on.
    pub socket: SocketAddress,
    /// The accepted peers, by remote address.
    pub streams: Registry,
    /// Set once the listener has been asked to stop accepting.
    pub closed: bool,
}

/// The mathematical content of a [`TcpServer`].
pub struct TcpServerView {
    pub socket: SocketAddress,
    pub peers: Map<SocketAddress, TcpClient>,
    pub closed: bool,
}

impl View for TcpServer {
    type V = TcpServerView;

    open spec fn view(&self) -> TcpServerView {
        TcpServerView { socket: self.socket, peers: self.streams@, closed: self.closed }
    }
}

/// An attempt to listen, and with it what the driver is to do next.
#[derive(Debug)]
pub enum TcpListen {
    /// Bind a listening socket to this address.
    Binding(SocketAddress),
    /// The socket is bound: make it non-blocking.
    Configuring(SocketAddress),
    /// The listener stands.
    Listening(TcpServer),
    /// The attempt has failed for good.
    Failed(RokitError),
}

/// The mathematical content of a [`TcpListen`].
pub enum TcpListenView {
    Binding(SocketAddress),
    Configuring(SocketAddress),
    Listening(TcpServerView),
    Failed(ErrorView),
}

/// What the driver reports to [`TcpServer::accept`].
#[derive(Debug)]
pub enum AcceptEvent {
    /// The accept call gave a stream from this remote address.
    Accepted(SocketAddress),
    /// The write timeout of the stream accepted from this address was set,
    /// or could not be set.
    Configured(SocketAddress, Result<(), IoFailure>),
    /// The accept call failed.
    Failed(IoFailure),
}

/// What [`TcpServer::accept`] asks of the driver.
#[derive(Debug)]
pub enum AcceptStep {
    /// Set the write timeout of the stream just accepted from this address
    /// to so many milliseconds, and report [`AcceptEvent::Configured`].
    Configure(SocketAddress, u64),
    /// Sleep for so many milliseconds, then call accept again.
    Retry(u64),
    /// Accepting is over, with this result.
    Done(Result<TcpClient, RokitError>),
}

/// The mathematical content of an [`AcceptStep`].
pub enum AcceptStepView {
    Configure(SocketAddress, u64),
    Retry(u64),
    Done(Result<TcpClient, ErrorView>),
}

impl View for AcceptStep {
    type V = AcceptStepView;

    open spec fn view(&self) -> AcceptStepView {
        match *self {
            AcceptStep::Configure(peer, millis) => AcceptStepView::Configure(peer, millis),
            AcceptStep::Retry(millis) => AcceptStepView::Retry(millis),
            AcceptStep::Done(Ok(client)) => AcceptStepView::Done(Ok(client)),
            AcceptStep::Done(Err(e)) => AcceptStepView::Done(Err(e@)),
        }
    }
}

/// One send to one peer, as the driver reports it.
#[derive(Debug)]
pub struct Attempt {
    /// The peer written to.
    pub peer: SocketAddress,
    /// Bytes written, or why none were.
    pub outcome: Result<usize, IoFailure>,
}

/// What became of one send.
#[derive(Debug, PartialEq, Eq)]
pub enum Delivery {
    /// So many bytes were written.
    Sent(u32),
    /// The write failed. The peer has left the registry, and the driver is
    /// to shut its stream down.
    Dropped(RokitError),
    /// No such peer is registered; nothing was done.
    Unknown,
}

/// The mathematical content of a [`Delivery`].
pub enum DeliveryView {
    Sent(u32),
    Dropped(ErrorView),
    Unknown,
}

impl View for Delivery {
    type V = DeliveryView;

    open spec fn view(&self) -> DeliveryView {
        match *self {
            Delivery::Sent(n) => DeliveryView::Sent(n),
            Delivery::Dropped(e) => DeliveryView::Dropped(e@),
            Delivery::Unknown => DeliveryView::Unknown,
        }
    }
}

/// The views of a sequence of deliveries.
pub open spec fn delivery_views(deliveries: Seq<Delivery>) -> Seq<DeliveryView> {
    Seq::new(deliveries.len(), |i: int| deliveries[i]@)
}

/// The listener after it has been asked to stop.
pub open spec fn close_step(server: TcpServerView) -> TcpServerView {
    TcpServerView { closed: true, ..server }
}

/// The error that ends accepting on a closed listener: it names the address
/// listened on.
pub open spec fn listener_closed(server: TcpServerView) -> ErrorView {
    fatal(TCP_SERVER_CLOSED@ + server.socket.display_text())
}

/// The decision of the accept loop: the listener after the event, and what
/// the driver is to do.
///
/// A stream that was accepted is configured first: its write timeout is to
/// be set to [`WRITE_TIMEOUT_MILLIS`]. Once that is done the peer is
/// registered under its remote address, in place of an earlier peer from
/// there, and accepting ends with it. An accept call that would have
/// blocked ends accepting if the listener is closed, and else is repeated
/// after a sleep of [`ACCEPT_RETRY_MILLIS`]. Every other failure ends
/// accepting with the system's reason.
pub open spec fn accept_step(server: TcpServerView, event: AcceptEvent) -> (
    TcpServerView,
    AcceptStepView,
) {
    match event {
        AcceptEvent::Accepted(peer) => (
            server,
            AcceptStepView::Configure(peer, WRITE_TIMEOUT_MILLIS),
        ),
        AcceptEvent::Configured(peer, Ok(_)) => {
            let client = TcpClient { socket_addr: peer };
            (
                TcpServerView { peers: server.peers.insert(peer, client), ..server },
                AcceptStepView::Done(Ok(client)),
            )
        },
        AcceptEvent::Configured(_, Err(f)) => (
            server,
            AcceptStepView::Done(Err(fatal(TCP_CONNECT_ERROR@ + f.reason@))),
        ),
        AcceptEvent::Failed(f) => if !f.would_block {
            (server, AcceptStepView::Done(Err(fatal(TCP_CONNECT_ERROR@ + f.reason@))))
        } else if server.closed {
            (server, AcceptStepView::Done(Err(listener_closed(server))))
        } else {
            (server, AcceptStepView::Retry(ACCEPT_RETRY_MILLIS))
        },
    }
}

/// The accept loop as the driver runs it: events are taken in order until
/// one ends accepting. Gives the listener afterwards, the result where
/// accepting has ended, and the number of sleeps that were asked for.
pub open spec fn accept_run(server: TcpServerView, events: Seq<AcceptEvent>) -> (
    TcpServerView,
    Option<Result<TcpClient, ErrorView>>,
    nat,
)
    decreases events.len(),
{
    if events.len() == 0 {
        (server, None, 0)
    } else {
        let (next, step) = accept_step(server, events[0]);
        match step {
            AcceptStepView::Done(result) => (next, Some(result), 0),
            AcceptStepView::Configure(_, _) => accept_run(next, events.skip(1)),
            AcceptStepView::Retry(_) => {
                let (last, result, sleeps) = accept_run(next, events.skip(1));
                (last, result, sleeps + 1)
            },
        }
    }
}

/// The event is an accept call that would have blocked.
pub open spec fn found_nothing(event: AcceptEvent) -> bool {
    event matches AcceptEvent::Failed(f) && f.would_block
}

/// No connection arrives: every event is an accept call that would have
/// blocked.
pub open spec fn nothing_arrives(events: Seq<AcceptEvent>) -> bool {
    forall|i: int| 0 <= i < events.len() ==> found_nothing(#[trigger] events[i])
}

/// The settling of one send: the listener afterwards, and what became of
/// the send. A failed write to a registered peer removes that peer and no
/// other.
pub open spec fn deliver_step(server: TcpServerView, attempt: Attempt) -> (
    TcpServerView,
    DeliveryView,
) {
    if !server.peers.contains_key(attempt.peer) {
        (server, DeliveryView::Unknown)
    } else {
        match attempt.outcome {
            Ok(written) => (server, DeliveryView::Sent(reported_count(written))),
            Err(f) => (
                TcpServerView { peers: server.peers.remove(attempt.peer), ..server },
                DeliveryView::Dropped(fatal(TCP_WRITE_ERROR@ + f.reason@)),
            ),
        }
    }
}

/// The settling of a round of sends, one after the other in the order of
/// the round.
pub open spec fn broadcast_run(server: TcpServerView, round: Seq<Attempt>) -> (
    TcpServerView,
    Seq<DeliveryView>,
)
    decreases round.len(),
{
    if round.len() == 0 {
        (server, Seq::<DeliveryView>::empty())
    } else {
        let (before, deliveries) = broadcast_run(server, round.drop_last());
        let (after, delivery) = deliver_step(before, round.last());
        (after, deliveries.push(delivery))
    }
}

/// The `i`-th send of the round went to `peer`, and its write failed.
pub open spec fn failed_at(round: Seq<Attempt>, i: int, peer: SocketAddress) -> bool {
    0 <= i < round.len() && round[i].peer == peer && round[i].outcome is Err
}

/// The peers of the round to whom a write failed.
pub open spec fn failed_peers(round: Seq<Attempt>) -> Set<SocketAddress> {
    Set::new(|peer: SocketAddress| exists|i: int| failed_at(round, i, peer))
}

/// Every send of the round goes to a registered peer, and no peer is sent
/// to twice.
pub open spec fn one_send_each(server: TcpServerView, round: Seq<Attempt>) -> bool {
    &&& forall|i: int|
        0 <= i < round.len() ==> server.peers.contains_key((#[trigger] round[i]).peer)
    &&& forall|i: int, j: int|
        0 <= i < j < round.len() ==> (#[trigger] round[i]).peer != (#[trigger] round[j]).peer
}

/// What a send to a registered peer is answered with: the byte count, or
/// the error with the system's reason.
pub open spec fn settled(attempt: Attempt) -> DeliveryView {
    match attempt.outcome {
        Ok(written) => DeliveryView::Sent(reported_count(written)),
        Err(f) => DeliveryView::Dropped(fatal(TCP_WRITE_ERROR@ + f.reason@)),
    }
}

impl View for TcpListen {
    type V = TcpListenView;

    open spec fn view(&self) -> TcpListenView {
        match *self {
            TcpListen::Binding(addr) => TcpListenView::Binding(addr),
            TcpListen::Configuring(addr) => TcpListenView::Configuring(addr),
            TcpListen::Listening(server) => TcpListenView::Listening(server@),
            TcpListen::Failed(e) => TcpListenView::Failed(e@),
        }
    }
}

/// How an attempt to listen starts: with the request to bind a socket to
/// the address that host and port denote, or failed with the resolver's
/// error.
pub open spec fn listen_start(ip: Seq<char>, port: Seq<char>) -> TcpListenView {
    match parse_address(ip, port) {
        Ok(addr) => TcpListenView::Binding(addr),
        Err(e) => TcpListenView::Failed(e),
    }
}

/// A listener that has just been set up: open, and without peers.
pub open spec fn fresh_listener(addr: SocketAddress) -> TcpServerView {
    TcpServerView { socket: addr, peers: Map::<SocketAddress, TcpClient>::empty(), closed: false }
}

/// How an attempt to listen goes on when the socket call that it asked for
/// has ended with `outcome`. The first failure ends the attempt, with the
/// system's reason in the message; after the last call has succeeded the
/// listener stands, open and without peers. A finished attempt stays as it
/// is.
pub open spec fn listen_step(
    state: TcpListenView,
    outcome: Result<(), IoFailure>,
) -> TcpListenView {
    match state {
        TcpListenView::Binding(addr) => match outcome {
            Ok(_) => TcpListenView::Configuring(addr),
            Err(f) => TcpListenView::Failed(fatal(TCP_LISTEN_ERROR@ + f.reason@)),
        },
        TcpListenView::Configuring(addr) => match outcome {
            Ok(_) => TcpListenView::Listening(fresh_listener(addr)),
            Err(f) => TcpListenView::Failed(fatal(TCP_LISTEN_ERROR@ + f.reason@)),
        },
        TcpListenView::Listening(_) => state,
        TcpListenView::Failed(_) => state,
    }
}

impl TcpListen {
    /// The attempt is well formed: the listener that it may hold is.
    pub open spec fn wf(&self) -> bool {
        self matches TcpListen::Listening(server) ==> server.wf()
    }

    /// Takes the outcome of the socket call that this state asked for, and
    /// says what comes next, as [`listen_step`] says.
    pub fn advance(self, outcome: Result<(), IoFailure>) -> (next: TcpListen)
        requires
            self.wf(),
        ensures
            next.wf(),
            next@ == listen_step(self@, outcome),
    {
        match self {
            TcpListen::Binding(addr) => match outcome {
                Ok(_) => TcpListen::Configuring(addr),
                Err(f) => TcpListen::Failed(failure(TCP_LISTEN_ERROR, f.reason.as_str())),
            },
            TcpListen::Configuring(addr) => match outcome {
                Ok(_) => TcpListen::Listening(
                    TcpServer { socket: addr, streams: Registry::new(), closed: false },
                ),
                Err(f) => TcpListen::Failed(failure(TCP_LISTEN_ERROR, f.reason.as_str())),
            },
            TcpListen::Listening(server) => TcpListen::Listening(server),
            TcpListen::Failed(e) => TcpListen::Failed(e),
        }
    }
}

impl TcpServer {
    /// The listener is well formed: its registry is.
    pub open spec fn wf(&self) -> bool {
        self.streams.wf()
    }

    /// Starts to listen on the host and port as typed, as [`listen_start`]
    /// says.
    pub fn listen(ip: String, port: String) -> (start: TcpListen)
        ensures
            start.wf(),
            start@ == listen_start(ip@, port@),
    {
        match parse_ip_port(ip, port) {
            Ok(addr) => TcpListen::Binding(addr),
            Err(e) => TcpListen::Failed(e),
        }
    }

    /// Asks the listener to stop accepting. Peers and socket stay as they
    /// are; accepting ends at its next accept call that finds no
    /// connection.
    pub fn close(&mut self)
        ensures
            final(self)@ == close_step(old(self)@),
            final(self).streams == old(self).streams,
    {
        self.closed = true;
    }

    /// Takes one event of the accept loop and decides, as [`accept_step`]
    /// says.
    pub fn accept(&mut self, event: AcceptEvent) -> (step: AcceptStep)
        requires
            old(self).wf(),
        ensures
            final(self).wf(),
            (final(self)@, step@) == accept_step(old(self)@, event),
    {
        match event {
            AcceptEvent::Accepted(peer) => AcceptStep::Configure(peer, WRITE_TIMEOUT_MILLIS),
            AcceptEvent::Configured(peer, Ok(_)) => {
                let client = TcpClient { socket_addr: peer };
                self.streams.insert(client);
                AcceptStep::Done(Ok(client))
            },
            AcceptEvent::Configured(_, Err(f)) => AcceptStep::Done(
                Err(failure(TCP_CONNECT_ERROR, f.reason.as_str())),
            ),
            AcceptEvent::Failed(f) => {
                if !f.would_block {
                    AcceptStep::Done(Err(failure(TCP_CONNECT_ERROR, f.reason.as_str())))
                } else if self.closed {
                    let place = self.socket.display();
                    AcceptStep::Done(Err(failure(TCP_SERVER_CLOSED, place.as_str())))
                } else {
                    AcceptStep::Retry(ACCEPT_RETRY_MILLIS)
                }
            },
        }
    }

    /// Settles one send, as [`deliver_step`] says.
    pub fn deliver(&mut self, attempt: &Attempt) -> (delivery: Delivery)
        requires
            old(self).wf(),
        ensures
            final(self).wf(),
            (final(self)@, delivery@) == deliver_step(old(self)@, *attempt),
    {
        if !self.streams.contains(attempt.peer) {
            return Delivery::Unknown;
        }
        match &attempt.outcome {
            Ok(written) => Delivery::Sent(report_count(*written)),
            Err(f) => {
                self.streams.remove(attempt.peer);
                Delivery::Dropped(failure(TCP_WRITE_ERROR, f.reason.as_str()))
            },
        }
    }

    /// Settles a round of sends in order, as [`broadcast_run`] says: a
    /// failed write removes its peer from the registry, and the sends to
    /// the other peers are settled all the same.
    pub fn broadcast(&mut self, round: &Vec<Attempt>) -> (deliveries: Vec<Delivery>)
        requires
            old(self).wf(),
        ensures
            final(self).wf(),
            (final(self)@, delivery_views(deliveries@)) == broadcast_run(old(self)@, round@),
    {
        let mut deliveries: Vec<Delivery> = Vec::new();
        let mut i: usize = 0;
        proof {
            assert(round@.take(0) =~= Seq::<Attempt>::empty());
            assert(delivery_views(deliveries@) =~= Seq::<DeliveryView>::empty());
        }
        while i < round.len()
            invariant
                i <= round.len(),
                self.wf(),
                (self@, delivery_views(deliveries@)) == broadcast_run(
                    old(self)@,
                    round@.take(i as int),
                ),
            decreases round.len() - i,
        {
            let ghost settled = delivery_views(deliveries@);
            let delivery = self.deliver(&round[i]);
            proof {
                assert(round@.take(i + 1).drop_last() =~= round@.take(i as int));
                assert(round@.take(i + 1).last() == round@[i as int]);
            }
            let ghost view = delivery@;
            deliveries.push(delivery);
            proof {
                assert(delivery_views(deliveries@) =~= settled.push(view));
            }
            i = i + 1;
        }
        proof {
            assert(round@.take(round.len() as int) =~= round@);
        }
        deliveries
    }
}

/// No listener stands half made. After the outcomes of the two socket calls
/// the attempt is over: the listener stands, open and without peers, on the
/// address that host and port denote, exactly when they resolve and both
/// calls succeeded; otherwise the attempt has failed with an error that is
/// not ignorable.
pub proof fn lemma_listen_is_all_or_nothing(
    ip: Seq<char>,
    port: Seq<char>,
    bound: Result<(), IoFailure>,
    configured: Result<(), IoFailure>,
)
    ensures
        match listen_step(listen_step(listen_start(ip, port), bound), configured) {
            TcpListenView::Listening(server) => bound is Ok && configured is Ok && parse_address(
                ip,
                port,
            ) == Ok::<SocketAddress, ErrorView>(server.socket) && server == fresh_listener(
                server.socket,
            ),
            TcpListenView::Failed(e) => !e.ignore && !(bound is Ok && configured is Ok
                && parse_address(ip, port) is Ok),
            _ => false,
        },
{
}

/// Once the listener is closed, accepting never sleeps again: whatever the
/// driver reports, the answer is not to retry, and an accept call that found
/// no connection ends accepting with the non-ignorable error that names the
/// address listened on.
pub proof fn lemma_accept_after_close(server: TcpServerView, event: AcceptEvent)
    ensures
        !(accept_step(close_step(server), event).1 is Retry),
        found_nothing(event) ==> accept_step(close_step(server), event) == (
            close_step(server),
            AcceptStepView::Done(
                Err(fatal(TCP_SERVER_CLOSED@ + server.socket.display_text())),
            ),
        ),
{
}

/// A closed listener to which no connection arrives stops accepting at its
/// first accept call, without a sleep, with the non-ignorable error that
/// names the address listened on; nothing else about it changes.
pub proof fn lemma_closed_listener_stops(server: TcpServerView, events: Seq<AcceptEvent>)
    requires
        server.closed,
        events.len() > 0,
        nothing_arrives(events),
    ensures
        accept_run(server, events) == (
            server,
            Some(Err::<TcpClient, ErrorView>(listener_closed(server))),
            0nat,
        ),
        !listener_closed(server).ignore,
{
    assert(found_nothing(events[0]));
}

/// An open listener to which no connection arrives goes on accepting: it
/// sleeps after every accept call, and is left as it was. Only closing it
/// ends the loop.
pub proof fn lemma_open_listener_waits(server: TcpServerView, events: Seq<AcceptEvent>)
    requires
        !server.closed,
        nothing_arrives(events),
    ensures
        accept_run(server, events) == (server, None::<Result<TcpClient, ErrorView>>, events.len()),
    decreases events.len(),
{
    if events.len() > 0 {
        assert(found_nothing(events[0]));
        let rest = events.skip(1);
        assert forall|i: int| 0 <= i < rest.len() implies found_nothing(#[trigger] rest[i]) by {
            assert(rest[i] == events[i + 1]);
        }
        lemma_open_listener_waits(server, rest);
    }
}

/// Closing is final and touches nothing else: a closed listener stays
/// closed through every accept event, and keeps its address.
pub proof fn lemma_closed_is_terminal(server: TcpServerView, event: AcceptEvent)
    requires
        server.closed,
    ensures
        close_step(server) == server,
        accept_step(server, event).0.closed,
        accept_step(server, event).0.socket == server.socket,
{
}

/// Accepting never loses a peer: whoever was registered before an event is
/// registered after it.
pub proof fn lemma_accept_keeps_peers(server: TcpServerView, event: AcceptEvent)
    ensures
        server.peers.dom().subset_of(accept_step(server, event).0.peers.dom()),
{
}

/// A round of sends leaves the registry without exactly the registered
/// peers to whom a write failed; address and closed flag stay, and every
/// send of the round is answered.
pub proof fn lemma_broadcast_removes_failed(server: TcpServerView, round: Seq<Attempt>)
    ensures
        broadcast_run(server, round).0.peers == server.peers.remove_keys(failed_peers(round)),
        broadcast_run(server, round).0.socket == server.socket,
        broadcast_run(server, round).0.closed == server.closed,
        broadcast_run(server, round).1.len() == round.len(),
    decreases round.len(),
{
    if round.len() == 0 {
        assert(server.peers.remove_keys(failed_peers(round)) =~= server.peers);
    } else {
        let head = round.drop_last();
        let last = round.last();
        lemma_broadcast_removes_failed(server, head);
        assert forall|peer: SocketAddress|
            failed_peers(round).contains(peer) <==> (failed_peers(head).contains(peer) || (peer
                == last.peer && last.outcome is Err)) by {
            if failed_peers(head).contains(peer) {
                let i = choose|i: int| failed_at(head, i, peer);
                assert(failed_at(round, i, peer));
            }
            if peer == last.peer && last.outcome is Err {
                assert(failed_at(round, round.len() - 1, peer));
            }
            if failed_peers(round).contains(peer) {
                let i = choose|i: int| failed_at(round, i, peer);
                if i < head.len() {
                    assert(failed_at(head, i, peer));
                }
            }
        }
        assert(broadcast_run(server, round).0.peers =~= server.peers.remove_keys(
            failed_peers(round),
        ));
    }
}

/// When every send of a round goes to a registered peer and no peer is
/// sent to twice, each send is answered by what its own outcome says: no
/// failure stands in the way of the sends that follow it.
pub proof fn lemma_broadcast_settles_each(server: TcpServerView, round: Seq<Attempt>)
    requires
        one_send_each(server, round),
    ensures
        broadcast_run(server, round).1.len() == round.len(),
        forall|i: int|
            0 <= i < round.len() ==> (#[trigger] broadcast_run(server, round).1[i]) == settled(
                round[i],
            ),
    decreases round.len(),
{
    if round.len() > 0 {
        let head = round.drop_last();
        let last = round.last();
        assert(one_send_each(server, head)) by {
            assert forall|i: int| 0 <= i < head.len() implies server.peers.contains_key(
                (#[trigger] head[i]).peer,
            ) by {
                assert(head[i] == round[i]);
            }
            assert forall|i: int, j: int| 0 <= i < j < head.len() implies (#[trigger] head[i]).peer
                != (#[trigger] head[j]).peer by {
                assert(head[i] == round[i]);
                assert(head[j] == round[j]);
            }
        }
        lemma_broadcast_settles_each(server, head);
        lemma_broadcast_removes_failed(server, head);
        assert(broadcast_run(server, head).0.peers.contains_key(last.peer)) by {
            assert(round[round.len() - 1] == last);
            if failed_peers(head).contains(last.peer) {
                let i = choose|i: int| failed_at(head, i, last.peer);
                assert(round[i] == head[i]);
            }
        }
        assert forall|i: int| 0 <= i < round.len() implies (#[trigger] broadcast_run(
            server,
            round,
        ).1[i]) == settled(round[i]) by {
            if i < head.len() {
                assert(head[i] == round[i]);
                assert(broadcast_run(server, round).1[i] == broadcast_run(server, head).1[i]);
            }
        }
    }
}

/// When every send of a round goes to a registered peer, no peer is sent to
/// twice, and the write to one of them fails while all others succeed,
/// then the round removes that one peer from the registry and no other,
/// reports it as dropped, and reports every other send as sent with its
/// byte count.
pub proof fn lemma_broadcast_one_failure(server: TcpServerView, round: Seq<Attempt>, k: int)
    requires
        0 <= k < round.len(),
        one_send_each(server, round),
        round[k].outcome is Err,
        forall|i: int| 0 <= i < round.len() && i != k ==> (#[trigger] round[i]).outcome is Ok,
    ensures
        broadcast_run(server, round).0.peers == server.peers.remove(round[k].peer),
        broadcast_run(server, round).1.len() == round.len(),
        broadcast_run(server, round).1[k] == DeliveryView::Dropped(
            fatal(TCP_WRITE_ERROR@ + round[k].outcome->Err_0.reason@),
        ),
        forall|i: int|
            0 <= i < round.len() && i != k ==> (#[trigger] broadcast_run(server, round).1[i])
                == DeliveryView::Sent(reported_count(round[i].outcome->Ok_0)),
{
    lemma_broadcast_removes_failed(server, round);
    lemma_broadcast_settles_each(server, round);
    assert(failed_peers(round) =~= set![round[k].peer]) by {
        assert forall|peer: SocketAddress| failed_peers(round).contains(peer) implies peer
            == round[k].peer by {
            let i = choose|i: int| failed_at(round, i, peer);
            assert(i == k);
        }
        assert(failed_at(round, k, round[k].peer));
    }
    assert(server.peers.remove_keys(set![round[k].peer]) =~= server.peers.remove(round[k].peer));
}

} // verus!
