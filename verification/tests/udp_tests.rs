use rokit::address::SocketAddress;
use rokit::outcome::IoFailure;
use rokit::rokit_error::RokitError;
use rokit::wire::READ_BUFFER_SIZE;
use rokit::udp_client::{
    local_address, Datagram, UdpClient, UdpClientReceive, UdpConnect, UdpReadStep,
    UDP_RETRY_MILLIS,
};

fn fatal(msg: &str) -> RokitError {
    RokitError { msg: msg.to_string(), ignore: false }
}

fn fault(reason: &str) -> IoFailure {
    IoFailure::fault(reason.to_string())
}

fn would_block() -> IoFailure {
    IoFailure::would_block("Resource temporarily unavailable".to_string())
}

fn remote() -> SocketAddress {
    SocketAddress::new(192, 168, 1, 20, 7000)
}

fn source() -> SocketAddress {
    SocketAddress::new(192, 168, 1, 21, 7001)
}

fn socket() -> UdpClient {
    UdpClient { socket_addr: remote(), closed: false }
}

fn datagram(bytes: &[u8]) -> Datagram {
    Datagram { source: source(), bytes: bytes.to_vec() }
}

fn closed_error() -> RokitError {
    fatal("UDP断开:192.168.1.20 7000")
}

#[test]
fn udp_constants() {
    assert_eq!(UDP_RETRY_MILLIS, 10);
    assert_eq!(local_address(), SocketAddress::new(127, 0, 0, 1, 34254));
}

#[test]
fn udp_connect_runs_three_steps() {
    let start = UdpClient::connect("192.168.1.20".to_string(), "7000".to_string());
    assert!(matches!(start, UdpConnect::Binding(l, a) if l == local_address() && a == remote()));
    let bound = start.advance(Ok(()));
    assert!(matches!(bound, UdpConnect::Connecting(a) if a == remote()));
    let associated = bound.advance(Ok(()));
    assert!(matches!(associated, UdpConnect::Configuring(a) if a == remote()));
    let ready = associated.advance(Ok(()));
    assert!(matches!(ready, UdpConnect::Connected(c) if c == socket()));
    let still = ready.advance(Err(fault("late")));
    assert!(matches!(still, UdpConnect::Connected(c) if c == socket()));
}

#[test]
fn udp_connect_failures() {
    let start = UdpClient::connect("192.168.1".to_string(), "7000".to_string());
    assert!(matches!(&start, UdpConnect::Failed(e) if *e == fatal("IP地址格式错误:192.168.1")));
    let start = UdpClient::connect("192.168.1.20".to_string(), "".to_string());
    assert!(matches!(&start, UdpConnect::Failed(e) if *e == fatal("端口格式错误:")));
    for good_steps in 0..3 {
        let mut state = UdpClient::connect("192.168.1.20".to_string(), "7000".to_string());
        for _ in 0..good_steps {
            state = state.advance(Ok(()));
        }
        let failed = state.advance(Err(fault("Address already in use")));
        assert!(matches!(&failed, UdpConnect::Failed(e)
            if *e == fatal("UDP连接错误:Address already in use")));
        let still = failed.advance(Ok(()));
        assert!(matches!(&still, UdpConnect::Failed(e)
            if *e == fatal("UDP连接错误:Address already in use")));
    }
}

#[test]
fn udp_send_reports_outcome() {
    let mut s = socket();
    assert_eq!(s.send("ping".to_string(), Ok(4)), Ok(4));
    assert_eq!(
        s.send("ping".to_string(), Err(fault("Connection refused"))),
        Err(fatal("UDP写入错误:Connection refused"))
    );
    assert_eq!(s, socket());
}

#[test]
fn udp_read_returns_datagram() {
    let mut s = socket();
    match s.read(Ok(datagram("héllo".as_bytes()))) {
        UdpReadStep::Done(Ok(received)) => assert_eq!(
            received,
            UdpClientReceive { socket_addr: source(), result: "héllo".to_string() }
        ),
        other => panic!("{:?}", other),
    }
    assert_eq!(s, socket());
}

#[test]
fn udp_read_takes_one_buffer() {
    let mut s = socket();
    let long = vec![b'u'; READ_BUFFER_SIZE + 100];
    match s.read(Ok(datagram(&long))) {
        UdpReadStep::Done(Ok(received)) => {
            assert_eq!(received.result, "u".repeat(READ_BUFFER_SIZE));
            assert_eq!(received.socket_addr, source());
        }
        other => panic!("{:?}", other),
    }
}

#[test]
fn udp_empty_datagram_ends_receiving() {
    let mut s = socket();
    let step = s.read(Ok(datagram(b"")));
    assert!(matches!(&step, UdpReadStep::Done(Err(e)) if *e == closed_error()));
}

#[test]
fn udp_read_rejects_invalid_utf8() {
    let mut s = socket();
    match s.read(Ok(datagram(&[b'o', b'k', 0x80]))) {
        UdpReadStep::Done(Err(e)) => {
            assert!(!e.ignore);
            let detail = std::str::from_utf8(&[b'o', b'k', 0x80]).unwrap_err().to_string();
            assert_eq!(e.msg, format!("UDP转码:{}", detail));
        }
        other => panic!("{:?}", other),
    }
}

#[test]
fn udp_read_retries_while_open() {
    let mut s = socket();
    for _ in 0..3 {
        assert!(matches!(s.read(Err(would_block())), UdpReadStep::Retry(10)));
    }
    assert_eq!(s, socket());
}

#[test]
fn udp_read_ends_once_closed() {
    let mut s = socket();
    assert!(matches!(s.read(Err(would_block())), UdpReadStep::Retry(10)));
    s.close();
    assert_eq!(s, UdpClient { socket_addr: remote(), closed: true });
    let step = s.read(Err(would_block()));
    assert!(matches!(&step, UdpReadStep::Done(Err(e)) if *e == closed_error()));
    let step = s.read(Ok(datagram(b"too late")));
    assert!(matches!(&step, UdpReadStep::Done(Err(e)) if *e == closed_error()));
    s.close();
    assert!(s.closed);
    let step = s.read(Err(would_block()));
    assert!(matches!(&step, UdpReadStep::Done(Err(e)) if *e == closed_error()));
}

#[test]
fn udp_read_failure_is_fatal() {
    let mut s = socket();
    let step = s.read(Err(fault("Connection refused")));
    assert!(matches!(&step, UdpReadStep::Done(Err(e)) if *e == fatal("UDP读取错误:Connection refused")));
    s.close();
    let step = s.read(Err(fault("Connection refused")));
    assert!(matches!(&step, UdpReadStep::Done(Err(e)) if *e == fatal("UDP读取错误:Connection refused")));
}
