//! What the console shows: the checklist of accepted peers, and the lines
//! of its logs.

use crate::address::SocketAddress;
use crate::rokit_error::{outcome_view, text_view, ErrorView, RokitError};
use crate::tcp_client::TcpClient;
use crate::text::{decimal, decimal_text, is_digit};
use vstd::prelude::*;
use vstd::string::StringExecFns;

verus! {

/// Label of the button that starts the TCP listener.
pub const SERVER_TCP_BUTTON_TEXT_CONNECT: &'static str = "TCP服务器启动";

/// Label of the button that stops the TCP listener.
pub const SERVER_TCP_BUTTON_TEXT_DISCONNECT: &'static str = "TCP服务器停止";

/// Label of the button that starts the UDP endpoint.
pub const SERVER_UDP_BUTTON_TEXT_CONNECT: &'static str = "UDP服务器启动";

/// Label of the button that stops the UDP endpoint.
pub const SERVER_UDP_BUTTON_TEXT_DISCONNECT: &'static str = "UDP服务器停止";

/// Label of the button that connects over TCP.
pub const CLIENT_TCP_BUTTON_TEXT_CONNECT: &'static str = "TCP连接";

/// Label of the button that ends the TCP connection.
pub const CLIENT_TCP_BUTTON_TEXT_DISCONNECT: &'static str = "TCP断开";

/// Label of the button that connects over UDP.
pub const CLIENT_UDP_BUTTON_TEXT_CONNECT: &'static str = "UDP连接";

/// Label of the button that ends the UDP association.
pub const CLIENT_UDP_BUTTON_TEXT_DISCONNECT: &'static str = "UDP断开";

/// The host that the address fields start with.
pub const DEFAULT_HOST: &'static str = "127.0.0.1";

/// The port that the port fields start with.
pub const DEFAULT_PORT: &'static str = "8888";

/// Log line: the listener has started. The address follows.
pub const LISTENING: &'static str = "TCP监听:";

/// Log line: the listener has stopped. The address or the cause follows.
pub const LISTEN_STOPPED: &'static str = "TCP监听停止:";

/// Log line: the client has connected. The address follows.
pub const CONNECTED: &'static str = "TCP连接:";

/// Log line: a checked peer is no longer registered. The address follows.
pub const PEER_GONE: &'static str = "TCP已断开:";

/// Log line: text has arrived. The text follows.
pub const RECEIVED: &'static str = "收到:";

/// Log line: a send was asked for without a listener.
pub const NO_SERVER: &'static str = "TCP服务器无连接";

/// Log line: a send was asked for without a connection.
pub const NOT_CONNECTED: &'static str = "TCP未连接";

/// First part of the line for a send: the byte count follows.
pub const SENT_HEAD: &'static str = "已发送";

/// Second part of the line for a send: the text follows.
pub const SENT_UNIT: &'static str = "字节:";

/// The transport of a listed peer.
#[derive(Clone, Copy, Debug, PartialEq, Eq, Structural)]
pub enum AddrCategory {
    TCP,
    UDP,
}

/// Whether a listed peer is selected.
#[derive(Clone, Copy, Debug, PartialEq, Eq, Structural)]
pub enum AddrState {
    Checked,
    Unchecked,
}

/// What the user did to one entry of the checklist.
#[derive(Clone, Copy, Debug, PartialEq, Eq, Structural)]
pub enum AddrMessage {
    /// The box was clicked, and is now ticked or not.
    Click(bool),
}

/// One entry of the checklist of peers.
#[derive(Debug, PartialEq, Eq)]
pub struct Addr {
    /// The peer's remote address.
    pub socket_addr: SocketAddress,
    /// The text shown beside the box.
    pub describe: String,
    /// Whether the box is ticked.
    pub check_state: AddrState,
    /// The peer's transport.
    pub category: AddrCategory,
}

/// The name of a transport.
pub open spec fn category_text(category: AddrCategory) -> Seq<char> {
    match category {
        AddrCategory::TCP => "TCP"@,
        AddrCategory::UDP => "UDP"@,
    }
}

/// The state that a click leaves the box in.
pub open spec fn state_after(message: AddrMessage) -> AddrState {
    match message {
        AddrMessage::Click(true) => AddrState::Checked,
        AddrMessage::Click(false) => AddrState::Unchecked,
    }
}

/// The entry with its box ticked.
pub open spec fn ticked(addr: Addr) -> Addr {
    Addr { check_state: AddrState::Checked, ..addr }
}

/// The checklist with every box ticked.
pub open spec fn all_ticked(addrs: Seq<Addr>) -> Seq<Addr> {
    Seq::new(addrs.len(), |i: int| ticked(addrs[i]))
}

/// The entries whose box is not ticked, in order.
pub open spec fn unticked(addrs: Seq<Addr>) -> Seq<Addr> {
    addrs.filter(|addr: Addr| addr.check_state == AddrState::Unchecked)
}

/// The positions are in strictly ascending order.
pub open spec fn ascending(marks: Seq<usize>) -> bool {
    forall|i: int, j: int| 0 <= i < j < marks.len() ==> marks[i] < marks[j]
}

/// The entries at positions that are not marked, in order.
pub open spec fn unmarked(addrs: Seq<Addr>, marks: Seq<usize>) -> Seq<Addr>
    decreases addrs.len(),
{
    if addrs.len() == 0 {
        addrs
    } else if marks.contains((addrs.len() - 1) as usize) {
        unmarked(addrs.drop_last(), marks)
    } else {
        unmarked(addrs.drop_last(), marks).push(addrs.last())
    }
}

/// The form of a time of day: hour, minute and second in two digits each,
/// with colons between.
pub open spec fn is_time_of_day(s: Seq<char>) -> bool {
    &&& s.len() == 8
    &&& is_digit(s[0]) && is_digit(s[1])
    &&& s[2] == ':'
    &&& is_digit(s[3]) && is_digit(s[4])
    &&& s[5] == ':'
    &&& is_digit(s[6]) && is_digit(s[7])
}

/// A line of the log: the time, a space, the message, and a line feed.
pub open spec fn log_line(stamp: Seq<char>, msg: Seq<char>) -> Seq<char> {
    (stamp.push(' ') + msg).push('\n')
}

/// The line that reports a send of `text` of which `count` bytes were
/// written.
pub open spec fn sent_text(count: u32, text: Seq<char>) -> Seq<char> {
    SENT_HEAD@ + decimal_text(count as nat) + SENT_UNIT@ + text
}

impl Addr {
    /// The entry for a peer that has just been accepted: not ticked, and
    /// described by host, port and transport with spaces between.
    pub fn new(socket_addr: SocketAddress, category: AddrCategory) -> (addr: Self)
        ensures
            addr.socket_addr == socket_addr,
            addr.category == category,
            addr.check_state == AddrState::Unchecked,
            addr.describe@ == socket_addr.display_text().push(' ') + category_text(category),
    {
        let c = match category {
            AddrCategory::TCP => "TCP",
            AddrCategory::UDP => "UDP",
        };
        let mut describe = socket_addr.display();
        describe.push(' ');
        describe.append(c);
        Addr { describe, socket_addr, category, check_state: AddrState::Unchecked }
    }

    /// Ticks or clears the box as the click says.
    pub fn update(&mut self, message: AddrMessage)
        ensures
            *final(self) == (Addr { check_state: state_after(message), ..*old(self) }),
    {
        match message {
            AddrMessage::Click(flag) => {
                if flag {
                    self.check_state = AddrState::Checked;
                } else {
                    self.check_state = AddrState::Unchecked;
                }
            },
        }
    }
}

/// Ticks every box of the checklist.
pub fn check_all(addrs: Vec<Addr>) -> (all: Vec<Addr>)
    ensures
        all@ == all_ticked(addrs@),
{
    let ghost before = addrs@;
    let mut all: Vec<Addr> = Vec::new();
    for addr in it: addrs
        invariant
            it.seq() == before,
            all@ == all_ticked(before.take(it.index() as int)),
    {
        let mut addr = addr;
        addr.check_state = AddrState::Checked;
        all.push(addr);
        proof {
            assert(all@ =~= all_ticked(before.take(it.index() + 1)));
        }
    }
    proof {
        assert(before.take(before.len() as int) =~= before);
    }
    all
}

/// Drops the ticked entries from the checklist and keeps the others in
/// order.
pub fn retain_unchecked(addrs: Vec<Addr>) -> (kept: Vec<Addr>)
    ensures
        kept@ == unticked(addrs@),
{
    let ghost before = addrs@;
    let ghost pred = |addr: Addr| addr.check_state == AddrState::Unchecked;
    let mut kept: Vec<Addr> = Vec::new();
    proof {
        reveal(Seq::filter);
        assert(before.take(0).filter(pred) =~= Seq::<Addr>::empty());
    }
    for addr in it: addrs
        invariant
            it.seq() == before,
            pred == (|addr: Addr| addr.check_state == AddrState::Unchecked),
            kept@ == before.take(it.index() as int).filter(pred),
    {
        proof {
            reveal(Seq::filter);
            let k = it.index() as int;
            assert(before.take(k + 1).drop_last() =~= before.take(k));
            assert(before.take(k + 1).last() == addr);
        }
        match addr.check_state {
            AddrState::Unchecked => {
                kept.push(addr);
            },
            AddrState::Checked => {},
        }
    }
    proof {
        assert(before.take(before.len() as int) =~= before);
    }
    kept
}

/// Drops the entries at the marked positions, which are given in ascending
/// order, and keeps the others in order.
pub fn remove_marked(addrs: Vec<Addr>, marks: &Vec<usize>) -> (kept: Vec<Addr>)
    requires
        ascending(marks@),
    ensures
        kept@ == unmarked(addrs@, marks@),
{
    let ghost before = addrs@;
    let mut kept: Vec<Addr> = Vec::new();
    let mut next: usize = 0;
    let mut position: usize = 0;
    for addr in it: addrs
        invariant
            it.seq() == before,
            ascending(marks@),
            position == it.index(),
            next <= marks.len(),
            forall|j: int| 0 <= j < next ==> marks[j] < position,
            forall|j: int| next <= j < marks.len() ==> marks[j] >= position,
            kept@ == unmarked(before.take(it.index() as int), marks@),
    {
        let ghost k = it.index() as int;
        proof {
            assert(before.take(k + 1).drop_last() =~= before.take(k));
            assert(before.take(k + 1).last() == addr);
            assert(k < before.len() <= usize::MAX) by {
                vstd::std_specs::vec::axiom_spec_len(&addrs);
            }
        }
        if next < marks.len() && marks[next] == position {
            proof {
                assert(marks@[next as int] == position);
                assert(marks@.contains(k as usize));
            }
            next = next + 1;
        } else {
            proof {
                assert forall|j: int| 0 <= j < marks@.len() implies marks@[j] != k as usize by {
                    if j > next {
                        assert(marks@[next as int] < marks@[j]);
                    }
                }
            }
            kept.push(addr);
        }
        position = position + 1;
    }
    proof {
        assert(before.take(before.len() as int) =~= before);
    }
    kept
}

/// Composes a message from a fixed beginning and what follows it.
pub fn message(head: &str, tail: &str) -> (msg: String)
    ensures
        msg@ == head@ + tail@,
{
    String::from_str(head).concat(tail)
}

/// Composes a message that names an address after a fixed beginning.
pub fn address_message(head: &str, addr: SocketAddress) -> (msg: String)
    ensures
        msg@ == head@ + addr.display_text(),
{
    let place = addr.display();
    String::from_str(head).concat(place.as_str())
}

/// The line that reports a send, as [`sent_text`] says.
pub fn sent_message(count: u32, text: &str) -> (msg: String)
    ensures
        msg@ == sent_text(count, text@),
{
    let digits = decimal(count as u64);
    String::from_str(SENT_HEAD).concat(digits.as_str()).concat(SENT_UNIT).concat(text)
}

/// Puts the time before a message and a line feed after it.
pub fn stamped(stamp: &str, msg: &str) -> (line: String)
    ensures
        line@ == log_line(stamp@, msg@),
{
    let mut line = String::from_str(stamp);
    line.push(' ');
    line.append(msg);
    line.push('\n');
    line
}

/// `chrono::Local::now` reads the clock, and `format` with `%H:%M:%S`
/// writes hour, minute and second of that moment in the local time zone,
/// each in two digits, with colons between. Which digits is not said: they
/// differ from call to call.
#[verifier::external_body]
fn clock_text() -> (stamp: String)
    ensures
        is_time_of_day(stamp@),
{
    chrono::Local::now().format("%H:%M:%S").to_string()
}

/// Makes a line of the log from a message: the local time of day as the
/// clock gives it now, then the message, as [`log_line`] says.
pub fn generate_log(msg: String) -> (line: String)
    ensures
        exists|stamp: Seq<char>| is_time_of_day(stamp) && line@ == log_line(stamp, msg@),
{
    let stamp = clock_text();
    let line = stamped(stamp.as_str(), msg.as_str());
    proof {
        assert(is_time_of_day(stamp@) && line@ == log_line(stamp@, msg@));
    }
    line
}

/// What the console does next with a connection or a listener.
#[derive(Clone, Copy, Debug, PartialEq, Eq, Structural)]
pub enum Next {
    /// Issue the operation again.
    Again,
    /// Nothing further.
    Rest,
    /// Shut the connection down, or let the listener go, and show it as
    /// gone.
    TearDown,
}

/// The console's answer to the end of an operation: a line for the log, if
/// any, and what to do next.
#[derive(Debug, PartialEq, Eq)]
pub struct Reaction {
    pub log: Option<String>,
    pub next: Next,
}

/// The mathematical content of a [`Reaction`].
pub struct ReactionView {
    pub log: Option<Seq<char>>,
    pub next: Next,
}

impl View for Reaction {
    type V = ReactionView;

    open spec fn view(&self) -> ReactionView {
        ReactionView {
            log: match self.log {
                Some(line) => Some(line@),
                None => None,
            },
            next: self.next,
        }
    }
}

/// What follows a failed operation on a standing connection or listener:
/// an ignorable error is not logged and the operation is issued again; any
/// other is logged, after `head`, and ends the connection or listener.
pub open spec fn failure_reaction(head: Seq<char>, e: ErrorView) -> ReactionView {
    if e.ignore {
        ReactionView { log: None, next: Next::Again }
    } else {
        ReactionView { log: Some(head + e.msg), next: Next::TearDown }
    }
}

/// What follows a read. Text is logged, and the next read is issued; an
/// error is answered as [`failure_reaction`] says. Where the connection
/// has been given up in the meantime, nothing further is done.
pub open spec fn read_reaction(
    result: Result<Seq<char>, ErrorView>,
    connected: bool,
) -> ReactionView {
    let reaction = match result {
        Ok(text) => ReactionView { log: Some(RECEIVED@ + text), next: Next::Again },
        Err(e) => failure_reaction(Seq::<char>::empty(), e),
    };
    if connected {
        reaction
    } else {
        ReactionView { next: Next::Rest, ..reaction }
    }
}

/// What follows a send of `text`. The byte count is logged; an error is
/// logged and ends the connection.
pub open spec fn send_reaction(result: Result<u32, ErrorView>, text: Seq<char>) -> ReactionView {
    match result {
        Ok(count) => ReactionView { log: Some(sent_text(count, text)), next: Next::Rest },
        Err(e) => ReactionView { log: Some(e.msg), next: Next::TearDown },
    }
}

/// What follows an accept. After a peer the next accept is issued; an
/// error is answered as [`failure_reaction`] says, with the line that
/// reports the listener's end.
pub open spec fn accept_reaction(result: Result<TcpClient, ErrorView>) -> ReactionView {
    match result {
        Ok(_) => ReactionView { log: None, next: Next::Again },
        Err(e) => failure_reaction(LISTEN_STOPPED@, e),
    }
}

/// Answers a failed operation, as [`failure_reaction`] says.
pub fn react_to_failure(head: &str, e: RokitError) -> (reaction: Reaction)
    ensures
        reaction@ == failure_reaction(head@, e@),
{
    if e.ignore {
        Reaction { log: None, next: Next::Again }
    } else {
        Reaction { log: Some(message(head, e.msg.as_str())), next: Next::TearDown }
    }
}

/// Answers the end of a read, as [`read_reaction`] says.
pub fn after_read(result: Result<String, RokitError>, connected: bool) -> (reaction: Reaction)
    ensures
        reaction@ == read_reaction(text_view(result), connected),
{
    let reaction = match result {
        Ok(text) => Reaction { log: Some(message(RECEIVED, text.as_str())), next: Next::Again },
        Err(e) => {
            let reaction = react_to_failure("", e);
            proof {
                reveal_strlit("");
                assert(""@ + e.msg@ =~= Seq::<char>::empty() + e.msg@);
            }
            reaction
        },
    };
    if connected {
        reaction
    } else {
        Reaction { log: reaction.log, next: Next::Rest }
    }
}

/// Answers the end of a send of `text`, as [`send_reaction`] says.
pub fn after_send(result: Result<u32, RokitError>, text: &str) -> (reaction: Reaction)
    ensures
        reaction@ == send_reaction(outcome_view(result), text@),
{
    match result {
        Ok(count) => Reaction { log: Some(sent_message(count, text)), next: Next::Rest },
        Err(e) => Reaction { log: Some(e.msg), next: Next::TearDown },
    }
}

/// Answers the end of an accept, as [`accept_reaction`] says, and gives the
/// entry of the checklist for a peer that was accepted.
pub fn after_accept(result: Result<TcpClient, RokitError>) -> (answer: (Reaction, Option<Addr>))
    ensures
        answer.0@ == accept_reaction(outcome_view(result)),
        match result {
            Ok(client) => answer.1 matches Some(addr) && addr.socket_addr == client.socket_addr
                && addr.category == AddrCategory::TCP && addr.check_state == AddrState::Unchecked
                && addr.describe@ == client.socket_addr.display_text().push(' ') + category_text(
                AddrCategory::TCP,
            ),
            Err(_) => answer.1 is None,
        },
{
    match result {
        Ok(client) => (
            Reaction { log: None, next: Next::Again },
            Some(Addr::new(client.socket_addr, AddrCategory::TCP)),
        ),
        Err(e) => (react_to_failure(LISTEN_STOPPED, e), None),
    }
}

/// An error that is marked ignorable is never logged and never ends a
/// connection or a listener, and one that is not always is logged and, on a
/// standing connection or listener, always ends it.
pub proof fn lemma_ignorable_is_silent(head: Seq<char>, e: ErrorView, connected: bool)
    ensures
        e.ignore ==> failure_reaction(head, e).log is None && failure_reaction(head, e).next
            == Next::Again,
        e.ignore ==> read_reaction(Err(e), connected).log is None && read_reaction(
            Err(e),
            connected,
        ).next != Next::TearDown,
        e.ignore ==> accept_reaction(Err(e)).log is None && accept_reaction(Err(e)).next
            == Next::Again,
        !e.ignore ==> failure_reaction(head, e).log is Some && failure_reaction(head, e).next
            == Next::TearDown,
        !e.ignore ==> read_reaction(Err(e), true).log == Some(e.msg) && read_reaction(
            Err(e),
            true,
        ).next == Next::TearDown,
        !e.ignore ==> accept_reaction(Err(e)).log == Some(LISTEN_STOPPED@ + e.msg)
            && accept_reaction(Err(e)).next == Next::TearDown,
{
    assert(Seq::<char>::empty() + e.msg =~= e.msg);
}

/// The entries that stay after [`remove_marked`] are those at the
/// positions that are not marked, and each marked position within the list
/// takes one entry away.
pub proof fn lemma_unmarked_len(addrs: Seq<Addr>, marks: Seq<usize>)
    requires
        ascending(marks),
        forall|j: int| 0 <= j < marks.len() ==> marks[j] < addrs.len(),
        addrs.len() <= usize::MAX,
    ensures
        unmarked(addrs, marks).len() == addrs.len() - marks.len(),
    decreases addrs.len(),
{
    if addrs.len() == 0 {
        if marks.len() > 0 {
            assert(marks[0] < addrs.len());
        }
    } else {
        let last = (addrs.len() - 1) as usize;
        if marks.contains(last) {
            let j = choose|j: int| 0 <= j < marks.len() && marks[j] == last;
            if j < marks.len() - 1 {
                assert(marks[j] < marks[marks.len() - 1]);
                assert(marks[marks.len() - 1] < addrs.len());
            }
            let rest = marks.drop_last();
            assert forall|a: int, b: int| 0 <= a < b < rest.len() implies rest[a] < rest[b] by {
                assert(rest[a] == marks[a]);
                assert(rest[b] == marks[b]);
            }
            assert forall|a: int| 0 <= a < rest.len() implies rest[a] < addrs.drop_last().len() by {
                assert(rest[a] == marks[a]);
                assert(marks[a] < marks[j]);
            }
            lemma_unmarked_len(addrs.drop_last(), rest);
            assert forall|p: usize| p < addrs.drop_last().len() implies (#[trigger] marks.contains(
                p,
            ) <==> rest.contains(p)) by {
                if marks.contains(p) {
                    let i = choose|i: int| 0 <= i < marks.len() && marks[i] == p;
                    assert(rest[i] == p);
                }
                if rest.contains(p) {
                    let i = choose|i: int| 0 <= i < rest.len() && rest[i] == p;
                    assert(marks[i] == p);
                }
            }
            lemma_unmarked_ignores(addrs.drop_last(), marks, rest);
        } else {
            assert forall|a: int| 0 <= a < marks.len() implies marks[a] < addrs.drop_last().len(
            ) by {
                assert(marks[a] < addrs.len());
                assert(marks.contains(marks[a]));
            }
            lemma_unmarked_len(addrs.drop_last(), marks);
        }
    }
}

/// Marks beyond the end of the list change nothing.
proof fn lemma_unmarked_ignores(addrs: Seq<Addr>, marks: Seq<usize>, rest: Seq<usize>)
    requires
        forall|p: usize| p < addrs.len() ==> (#[trigger] marks.contains(p) <==> rest.contains(p)),
    ensures
        unmarked(addrs, marks) == unmarked(addrs, rest),
    decreases addrs.len(),
{
    if addrs.len() > 0 {
        lemma_unmarked_ignores(addrs.drop_last(), marks, rest);
    }
}

} // verus!
