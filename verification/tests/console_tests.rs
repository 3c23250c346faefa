use rokit::address::SocketAddress;
use rokit::console::{
    address_message, after_accept, after_read, after_send, check_all, generate_log, message,
    react_to_failure, remove_marked, retain_unchecked, sent_message, stamped, Addr, AddrCategory,
    AddrMessage, AddrState, Next, Reaction, CONNECTED, LISTENING, LISTEN_STOPPED, PEER_GONE,
    RECEIVED,
};
use rokit::rokit_error::RokitError;
use rokit::tcp_client::TcpClient;

fn peer(n: u8) -> SocketAddress {
    SocketAddress::new(10, 0, 0, n, 4000 + n as u16)
}

fn entry(n: u8, checked: bool) -> Addr {
    let mut addr = Addr::new(peer(n), AddrCategory::TCP);
    addr.update(AddrMessage::Click(checked));
    addr
}

fn list(states: &[bool]) -> Vec<Addr> {
    states.iter().enumerate().map(|(i, checked)| entry(i as u8, *checked)).collect()
}

fn numbers(addrs: &[Addr]) -> Vec<u8> {
    addrs.iter().map(|addr| addr.socket_addr.d).collect()
}

#[test]
fn new_entry_is_described_and_clear() {
    let addr = Addr::new(SocketAddress::new(127, 0, 0, 1, 8888), AddrCategory::TCP);
    assert_eq!(addr.describe, "127.0.0.1 8888 TCP");
    assert_eq!(addr.check_state, AddrState::Unchecked);
    assert_eq!(addr.category, AddrCategory::TCP);
    assert_eq!(addr.socket_addr, SocketAddress::new(127, 0, 0, 1, 8888));
    let addr = Addr::new(SocketAddress::new(8, 8, 4, 4, 53), AddrCategory::UDP);
    assert_eq!(addr.describe, "8.8.4.4 53 UDP");
    assert_eq!(addr.category, AddrCategory::UDP);
}

#[test]
fn click_sets_the_box() {
    let mut addr = Addr::new(peer(1), AddrCategory::TCP);
    addr.update(AddrMessage::Click(true));
    assert_eq!(addr.check_state, AddrState::Checked);
    addr.update(AddrMessage::Click(true));
    assert_eq!(addr.check_state, AddrState::Checked);
    addr.update(AddrMessage::Click(false));
    assert_eq!(addr.check_state, AddrState::Unchecked);
    assert_eq!(addr.describe, "10.0.0.1 4001 TCP");
    assert_eq!(addr.socket_addr, peer(1));
}

#[test]
fn check_all_ticks_every_box() {
    let all = check_all(list(&[false, true, false]));
    assert_eq!(all, list(&[true, true, true]));
    assert_eq!(check_all(Vec::new()), Vec::<Addr>::new());
}

#[test]
fn retain_unchecked_drops_ticked() {
    let kept = retain_unchecked(list(&[true, false, true, false, false]));
    assert_eq!(numbers(&kept), vec![1, 3, 4]);
    assert!(kept.iter().all(|addr| addr.check_state == AddrState::Unchecked));
    assert_eq!(retain_unchecked(list(&[true, true])), Vec::<Addr>::new());
    assert_eq!(retain_unchecked(list(&[false, false])), list(&[false, false]));
}

#[test]
fn remove_marked_drops_positions() {
    let kept = remove_marked(list(&[true, false, true, false, true]), &vec![0, 2, 3]);
    assert_eq!(numbers(&kept), vec![1, 4]);
    assert_eq!(kept[0].check_state, AddrState::Unchecked);
    assert_eq!(kept[1].check_state, AddrState::Checked);
    let kept = remove_marked(list(&[true, false, true]), &Vec::new());
    assert_eq!(kept, list(&[true, false, true]));
    let kept = remove_marked(list(&[true, false, true]), &vec![0, 1, 2]);
    assert_eq!(kept, Vec::<Addr>::new());
    let kept = remove_marked(list(&[true, false, true]), &vec![2]);
    assert_eq!(numbers(&kept), vec![0, 1]);
    let kept = remove_marked(list(&[true, false]), &vec![1, 5, 9]);
    assert_eq!(numbers(&kept), vec![0]);
}

#[test]
fn messages_are_composed() {
    let addr = SocketAddress::new(127, 0, 0, 1, 8888);
    assert_eq!(address_message(LISTENING, addr), "TCP监听:127.0.0.1 8888");
    assert_eq!(address_message(LISTEN_STOPPED, addr), "TCP监听停止:127.0.0.1 8888");
    assert_eq!(address_message(CONNECTED, addr), "TCP连接:127.0.0.1 8888");
    assert_eq!(address_message(PEER_GONE, addr), "TCP已断开:127.0.0.1 8888");
    assert_eq!(message(RECEIVED, "hello"), "收到:hello");
    assert_eq!(message(LISTEN_STOPPED, "TCP服务器关闭:0.0.0.0 1"), "TCP监听停止:TCP服务器关闭:0.0.0.0 1");
    assert_eq!(message("", ""), "");
}

#[test]
fn sent_message_counts_bytes() {
    assert_eq!(sent_message(5, "hello"), "已发送5字节:hello");
    assert_eq!(sent_message(0, ""), "已发送0字节:");
    assert_eq!(sent_message(u32::MAX, "x"), "已发送4294967295字节:x");
}

#[test]
fn stamped_line() {
    assert_eq!(stamped("12:34:56", "TCP未连接"), "12:34:56 TCP未连接\n");
    assert_eq!(stamped("", ""), " \n");
}

#[test]
fn generate_log_stamps_the_time() {
    let line = generate_log("hello".to_string());
    assert!(line.ends_with(" hello\n"), "{:?}", line);
    let stamp: Vec<char> = line[..line.len() - " hello\n".len()].chars().collect();
    assert_eq!(stamp.len(), 8, "{:?}", line);
    for (i, c) in stamp.iter().enumerate() {
        if i == 2 || i == 5 {
            assert_eq!(*c, ':');
        } else {
            assert!(c.is_ascii_digit());
        }
    }
}

fn fatal(msg: &str) -> RokitError {
    RokitError { msg: msg.to_string(), ignore: false }
}

fn transient(msg: &str) -> RokitError {
    RokitError { msg: msg.to_string(), ignore: true }
}

fn reaction(log: Option<&str>, next: Next) -> Reaction {
    Reaction { log: log.map(|line| line.to_string()), next }
}

#[test]
fn read_is_followed_by_read() {
    assert_eq!(after_read(Ok("hi".to_string()), true), reaction(Some("收到:hi"), Next::Again));
    assert_eq!(after_read(Ok(String::new()), true), reaction(Some("收到:"), Next::Again));
    assert_eq!(after_read(Ok("hi".to_string()), false), reaction(Some("收到:hi"), Next::Rest));
}

#[test]
fn fatal_read_error_tears_down() {
    assert_eq!(
        after_read(Err(fatal("TCP断开127.0.0.1 8888")), true),
        reaction(Some("TCP断开127.0.0.1 8888"), Next::TearDown)
    );
    assert_eq!(
        after_read(Err(fatal("TCP断开127.0.0.1 8888")), false),
        reaction(Some("TCP断开127.0.0.1 8888"), Next::Rest)
    );
}

#[test]
fn ignorable_read_error_is_silent() {
    assert_eq!(after_read(Err(transient("TCP读取错误:later")), true), reaction(None, Next::Again));
    assert_eq!(after_read(Err(transient("TCP读取错误:later")), false), reaction(None, Next::Rest));
}

#[test]
fn send_is_logged() {
    assert_eq!(after_send(Ok(5), "hello"), reaction(Some("已发送5字节:hello"), Next::Rest));
    assert_eq!(
        after_send(Err(fatal("TCP写入错误:Broken pipe")), "hello"),
        reaction(Some("TCP写入错误:Broken pipe"), Next::TearDown)
    );
}

#[test]
fn accept_is_followed_by_accept() {
    let client = TcpClient { socket_addr: peer(7) };
    let (answer, addr) = after_accept(Ok(client));
    assert_eq!(answer, reaction(None, Next::Again));
    assert_eq!(addr, Some(Addr::new(peer(7), AddrCategory::TCP)));
    let (answer, addr) = after_accept(Err(fatal("TCP服务器关闭:127.0.0.1 8888")));
    assert_eq!(answer, reaction(Some("TCP监听停止:TCP服务器关闭:127.0.0.1 8888"), Next::TearDown));
    assert_eq!(addr, None);
    let (answer, addr) = after_accept(Err(transient("later")));
    assert_eq!(answer, reaction(None, Next::Again));
    assert_eq!(addr, None);
}

#[test]
fn failure_reaction_by_flag() {
    assert_eq!(react_to_failure("head:", fatal("x")), reaction(Some("head:x"), Next::TearDown));
    assert_eq!(react_to_failure("head:", transient("x")), reaction(None, Next::Again));
}
