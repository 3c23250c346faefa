use rokit::address::SocketAddress;
use rokit::common::{ascii_to_utf_8, parse_ip_port};
use rokit::rokit_error::RokitError;
use rokit::text::{decimal, parse_decimal, split};

fn chars(s: &str) -> Vec<char> {
    s.chars().collect()
}

fn resolve(ip: &str, port: &str) -> Result<SocketAddress, RokitError> {
    parse_ip_port(ip.to_string(), port.to_string())
}

fn invalid_address(ip: &str) -> RokitError {
    RokitError { msg: format!("IP地址格式错误:{}", ip), ignore: false }
}

fn invalid_port(port: &str) -> RokitError {
    RokitError { msg: format!("端口格式错误:{}", port), ignore: false }
}

#[test]
fn resolves_loopback() {
    assert_eq!(resolve("127.0.0.1", "8888"), Ok(SocketAddress::new(127, 0, 0, 1, 8888)));
}

#[test]
fn resolves_extremes() {
    assert_eq!(resolve("0.0.0.0", "0"), Ok(SocketAddress::new(0, 0, 0, 0, 0)));
    assert_eq!(
        resolve("255.255.255.255", "65535"),
        Ok(SocketAddress::new(255, 255, 255, 255, 65535))
    );
}

#[test]
fn resolves_leading_zeros_and_plus() {
    assert_eq!(resolve("010.001.000.0255", "00080"), Ok(SocketAddress::new(10, 1, 0, 255, 80)));
    assert_eq!(resolve("+1.+2.+3.+4", "+5"), Ok(SocketAddress::new(1, 2, 3, 4, 5)));
}

#[test]
fn rejects_wrong_octet_count() {
    for ip in ["", "1", "1.2.3", "1.2.3.4.5", "1.2.3.4.", ".1.2.3.4", "...."] {
        assert_eq!(resolve(ip, "80"), Err(invalid_address(ip)), "{:?}", ip);
    }
}

#[test]
fn rejects_non_numeric_octet() {
    for ip in ["a.b.c.d", "1.2.3.x", "1..3.4", "1.2.3.4 ", " 1.2.3.4", "1.2.-3.4", "1.2.+.4", "1.2.3.4a", "１.2.3.4", "1.2.3.0x4", "1.2.++3.4"] {
        assert_eq!(resolve(ip, "80"), Err(invalid_address(ip)), "{:?}", ip);
    }
}

#[test]
fn rejects_octet_out_of_range() {
    for ip in ["256.0.0.1", "1.2.3.300", "1.999999999999999999999999.3.4", "0.0.0.4294967296"] {
        assert_eq!(resolve(ip, "80"), Err(invalid_address(ip)), "{:?}", ip);
    }
}

#[test]
fn rejects_bad_port() {
    for port in ["", "65536", "abc", "-1", "80 ", "8 0", "+", "99999999999999999999", "4294967376"] {
        assert_eq!(resolve("127.0.0.1", port), Err(invalid_port(port)), "{:?}", port);
    }
}

#[test]
fn bad_host_is_reported_before_bad_port() {
    assert_eq!(resolve("1.2.3", "nope"), Err(invalid_address("1.2.3")));
}

#[test]
fn resolve_matches_std_parsing() {
    let octets = ["0", "7", "000", "255", "256", "+9", "-1", "", "a", "1e1", "0255", "+", "25 "];
    for a in octets {
        for d in octets {
            let ip = format!("{}.10.20.{}", a, d);
            let expected = match (a.parse::<u8>(), d.parse::<u8>()) {
                (Ok(x), Ok(y)) => Ok(SocketAddress::new(x, 10, 20, y, 9)),
                _ => Err(invalid_address(&ip)),
            };
            assert_eq!(resolve(&ip, "9"), expected, "{:?}", ip);
        }
    }
    for p in ["0", "65535", "65536", "+80", "-80", "", "0000001", "６"] {
        let expected = match p.parse::<u16>() {
            Ok(x) => Ok(SocketAddress::new(1, 2, 3, 4, x)),
            Err(_) => Err(invalid_port(p)),
        };
        assert_eq!(resolve("1.2.3.4", p), expected, "{:?}", p);
    }
}

#[test]
fn written_address_reads_back() {
    for addr in [
        SocketAddress::new(0, 0, 0, 0, 0),
        SocketAddress::new(127, 0, 0, 1, 34254),
        SocketAddress::new(255, 255, 255, 255, 65535),
        SocketAddress::new(9, 10, 99, 100, 1000),
    ] {
        let port = decimal(addr.port as u64);
        assert_eq!(parse_ip_port(addr.ip(), port), Ok(addr));
    }
}

#[test]
fn address_is_written_dotted() {
    let addr = SocketAddress::new(192, 168, 0, 17, 8080);
    assert_eq!(addr.ip(), "192.168.0.17");
    assert_eq!(addr.display(), "192.168.0.17 8080");
    assert_eq!(SocketAddress::new(0, 0, 0, 0, 0).display(), "0.0.0.0 0");
    assert_eq!(SocketAddress::new(255, 255, 255, 255, 65535).display(), "255.255.255.255 65535");
}

#[test]
fn keys_tell_addresses_apart() {
    let base = SocketAddress::new(1, 2, 3, 4, 5);
    assert_eq!(base.key(), 0x0102_0304_0005);
    assert_eq!(SocketAddress::new(255, 255, 255, 255, 65535).key(), 0xffff_ffff_ffff);
    let others = [
        SocketAddress::new(2, 2, 3, 4, 5),
        SocketAddress::new(1, 3, 3, 4, 5),
        SocketAddress::new(1, 2, 4, 4, 5),
        SocketAddress::new(1, 2, 3, 5, 5),
        SocketAddress::new(1, 2, 3, 4, 6),
        SocketAddress::new(1, 2, 3, 0, 1029),
    ];
    for other in others {
        assert_ne!(base.key(), other.key());
    }
}

#[test]
fn splits_on_separator() {
    assert_eq!(split("1.2.3.4", '.'), vec![chars("1"), chars("2"), chars("3"), chars("4")]);
    assert_eq!(split("", '.'), vec![chars("")]);
    assert_eq!(split(".", '.'), vec![chars(""), chars("")]);
    assert_eq!(split("a..b.", '.'), vec![chars("a"), chars(""), chars("b"), chars("")]);
    assert_eq!(split("端口,格式", ','), vec![chars("端口"), chars("格式")]);
    assert_eq!(split("no separator", ','), vec![chars("no separator")]);
}

#[test]
fn split_agrees_with_std() {
    for text in ["", ",", ",,", "a,b", ",a", "a,", "65,66,67", "x,,y,,,z"] {
        let expected: Vec<Vec<char>> = text.split(",").map(chars).collect();
        assert_eq!(split(text, ','), expected, "{:?}", text);
    }
}

#[test]
fn reads_decimal_numerals() {
    assert_eq!(parse_decimal(&chars("0"), 255), Some(0));
    assert_eq!(parse_decimal(&chars("255"), 255), Some(255));
    assert_eq!(parse_decimal(&chars("256"), 255), None);
    assert_eq!(parse_decimal(&chars("+42"), 255), Some(42));
    assert_eq!(parse_decimal(&chars("0042"), 255), Some(42));
    assert_eq!(parse_decimal(&chars(""), 255), None);
    assert_eq!(parse_decimal(&chars("+"), 255), None);
    assert_eq!(parse_decimal(&chars("-1"), 255), None);
    assert_eq!(parse_decimal(&chars("4 2"), 255), None);
    assert_eq!(parse_decimal(&chars("4294967295"), u32::MAX), Some(u32::MAX));
    assert_eq!(parse_decimal(&chars("4294967296"), u32::MAX), None);
    assert_eq!(parse_decimal(&chars("99999999999999999999999999"), u32::MAX), None);
    assert_eq!(parse_decimal(&chars("7"), 0), None);
    assert_eq!(parse_decimal(&chars("0"), 0), Some(0));
}

#[test]
fn writes_decimal_numerals() {
    for n in [0u64, 1, 9, 10, 11, 99, 100, 255, 256, 65535, 1_000_000, u64::MAX] {
        assert_eq!(decimal(n), n.to_string());
    }
}

#[test]
fn byte_list_becomes_text() {
    assert_eq!(ascii_to_utf_8("65,66,67".to_string()), Ok("ABC".to_string()));
    assert_eq!(ascii_to_utf_8("104,105".to_string()), Ok("hi".to_string()));
    assert_eq!(ascii_to_utf_8("0".to_string()), Ok("\0".to_string()));
    assert_eq!(ascii_to_utf_8("200,+255,007".to_string()), Ok("\u{c8}\u{ff}\u{7}".to_string()));
}

#[test]
fn byte_list_is_rejected() {
    let rejected = RokitError {
        msg: "用户输入错误, 格式为'65,66,67' => 'ABC'".to_string(),
        ignore: false,
    };
    for input in ["", "65,", ",65", "65,,66", "256", "65, 66", "A", "65;66", "-1"] {
        assert_eq!(ascii_to_utf_8(input.to_string()), Err(rejected.clone()), "{:?}", input);
    }
}

#[test]
fn errors_are_built_as_asked() {
    assert_eq!(
        RokitError::new_msg("boom".to_string()),
        RokitError { msg: "boom".to_string(), ignore: false }
    );
    assert_eq!(
        RokitError::new(true, "later".to_string()),
        RokitError { msg: "later".to_string(), ignore: true }
    );
    assert_eq!(
        RokitError::new(false, "now".to_string()),
        RokitError { msg: "now".to_string(), ignore: false }
    );
    assert_eq!(RokitError::default(), RokitError { msg: String::new(), ignore: false });
}
