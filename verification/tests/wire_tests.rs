use rokit::outcome::IoFailure;
use rokit::rokit_error::{failure, RokitError};
use rokit::wire::{decode, payload, take_buffer, READ_BUFFER_SIZE};

#[test]
fn failures_are_built_as_asked() {
    assert_eq!(
        IoFailure::would_block("try again".to_string()),
        IoFailure { would_block: true, reason: "try again".to_string() }
    );
    assert_eq!(
        IoFailure::fault("broken".to_string()),
        IoFailure { would_block: false, reason: "broken".to_string() }
    );
}

#[test]
fn failure_joins_prefix_and_detail() {
    assert_eq!(
        failure("TCP连接错误:", "refused"),
        RokitError { msg: "TCP连接错误:refused".to_string(), ignore: false }
    );
    assert_eq!(failure("", ""), RokitError { msg: String::new(), ignore: false });
}

#[test]
fn buffer_takes_at_most_its_size() {
    assert_eq!(take_buffer(&Vec::new()), &[] as &[u8]);
    assert_eq!(take_buffer(&vec![1, 2, 3]), &[1, 2, 3]);
    let exact: Vec<u8> = (0..READ_BUFFER_SIZE).map(|i| i as u8).collect();
    assert_eq!(take_buffer(&exact), &exact[..]);
    let mut over = exact.clone();
    over.extend_from_slice(&[9, 9, 9]);
    assert_eq!(take_buffer(&over), &exact[..]);
}

#[test]
fn decode_reads_utf8() {
    assert_eq!(decode(b"plain", "x:"), Ok("plain".to_string()));
    assert_eq!(decode("端口 é ✓".as_bytes(), "x:"), Ok("端口 é ✓".to_string()));
    assert_eq!(decode(b"", "x:"), Ok(String::new()));
    assert_eq!(decode(&payload("round trip"), "x:"), Ok("round trip".to_string()));
}

#[test]
fn decode_names_the_fault() {
    let bad: [&[u8]; 4] = [&[0x80], &[b'a', 0xe2, 0x82], &[0xf5, 0x80, 0x80, 0x80], &[0xc1, 0xbf]];
    for bytes in bad {
        let e = decode(bytes, "前缀:").unwrap_err();
        assert!(!e.ignore);
        assert!(e.msg.starts_with("前缀:"));
        assert!(e.msg.len() > "前缀:".len(), "{}", e.msg);
    }
}
