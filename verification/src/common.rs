//! Reading what the user typed: a host and port, and a list of byte values.

use crate::address::SocketAddress;
use crate::rokit_error::{failure, fatal, outcome_view, ErrorView, RokitError};
use crate::text::{
    count_of, decimal_text, is_digit, lemma_parse_decimal_text, lemma_split_on,
    lemma_split_on_append, lemma_split_on_plain, numeral_digits, parse_decimal, parse_unsigned,
    segments, split, split_on,
};
use vstd::prelude::*;
use vstd::string::StringExecFns;

verus! {

/// What precedes the offending host in the message of a rejected host.
pub const INVALID_ADDRESS: &'static str = "IP地址格式错误:";

/// What precedes the offending port in the message of a rejected port.
pub const INVALID_PORT: &'static str = "端口格式错误:";

/// The message of a rejected list of byte values.
pub const INVALID_BYTE_LIST: &'static str = "用户输入错误, 格式为'65,66,67' => 'ABC'";

/// The largest octet.
pub const OCTET_MAX: u32 = 255;

/// The largest port.
pub const PORT_MAX: u32 = 65535;

/// The text is a numeral of an octet: of at most 255.
pub open spec fn is_octet(s: Seq<char>) -> bool {
    parse_unsigned(s, OCTET_MAX as nat) is Some
}

/// The text is a numeral of a port: of at most 65535.
pub open spec fn is_port(s: Seq<char>) -> bool {
    parse_unsigned(s, PORT_MAX as nat) is Some
}

/// The octet that a numeral denotes.
pub open spec fn octet_of(s: Seq<char>) -> u8 {
    parse_unsigned(s, OCTET_MAX as nat).unwrap() as u8
}

/// The port that a numeral denotes.
pub open spec fn port_of(s: Seq<char>) -> u16 {
    parse_unsigned(s, PORT_MAX as nat).unwrap() as u16
}

/// Every segment is a numeral of an octet.
pub open spec fn all_octets(parts: Seq<Seq<char>>) -> bool {
    forall|i: int| 0 <= i < parts.len() ==> is_octet(#[trigger] parts[i])
}

/// The octet that the `i`-th segment denotes.
pub open spec fn octet_at(parts: Seq<Seq<char>>, i: int) -> u8 {
    octet_of(parts[i])
}

/// The four octets of a host: exactly four segments between dots, each a
/// numeral of at most 255.
pub open spec fn parse_host(ip: Seq<char>) -> Option<(u8, u8, u8, u8)> {
    let parts = split_on(ip, '.');
    if parts.len() == 4 && all_octets(parts) {
        Some((octet_at(parts, 0), octet_at(parts, 1), octet_at(parts, 2), octet_at(parts, 3)))
    } else {
        None
    }
}

/// The address that a host and a port denote. A malformed host is reported
/// before a malformed port; each error names the offending text.
pub open spec fn parse_address(ip: Seq<char>, port: Seq<char>) -> Result<
    SocketAddress,
    ErrorView,
> {
    match parse_host(ip) {
        None => Err(fatal(INVALID_ADDRESS@ + ip)),
        Some(host) => if is_port(port) {
            Ok(SocketAddress { a: host.0, b: host.1, c: host.2, d: host.3, port: port_of(port) })
        } else {
            Err(fatal(INVALID_PORT@ + port))
        },
    }
}

/// The text that a comma-separated list of byte values denotes: one
/// character per value, with the value as its code point.
pub open spec fn byte_list_text(input: Seq<char>) -> Option<Seq<char>> {
    let parts = split_on(input, ',');
    if all_octets(parts) {
        Some(Seq::new(parts.len(), |i: int| octet_at(parts, i) as char))
    } else {
        None
    }
}

/// The characters of a text.
fn characters(text: &str) -> (chars: Vec<char>)
    ensures
        chars@ == text@,
{
    let mut chars: Vec<char> = Vec::new();
    proof {
        assert(text@.take(0) =~= chars@);
    }
    for c in it: text.chars()
        invariant
            it.seq() == text@,
            chars@ == text@.take(it.index() as int),
    {
        chars.push(c);
        proof {
            assert(text@.take(it.index() + 1) =~= text@.take(it.index() as int).push(c));
        }
    }
    proof {
        assert(text@.take(text@.len() as int) =~= text@);
    }
    chars
}

/// Resolves a host and a port, both as typed, to a socket address.
///
/// The host must be four numerals of at most 255 with dots between; the port
/// a numeral of at most 65535. A numeral is one or more decimal digits,
/// which one `+` may precede.
pub fn parse_ip_port(ip: String, port: String) -> (r: Result<SocketAddress, RokitError>)
    ensures
        outcome_view(r) == parse_address(ip@, port@),
{
    let parts = split(ip.as_str(), '.');
    if parts.len() != 4 {
        return Err(failure(INVALID_ADDRESS, ip.as_str()));
    }
    let ghost texts = split_on(ip@, '.');
    let mut octets: Vec<u8> = Vec::new();
    let mut i: usize = 0;
    while i < 4
        invariant
            i <= 4,
            parts.len() == 4,
            texts == split_on(ip@, '.'),
            segments(parts@) == texts,
            octets.len() == i,
            forall|j: int| 0 <= j < i ==> is_octet(#[trigger] texts[j]),
            forall|j: int| 0 <= j < i ==> octets[j] == octet_at(texts, j),
        decreases 4 - i,
    {
        proof {
            assert(texts[i as int] == parts[i as int]@);
        }
        match parse_decimal(&parts[i], OCTET_MAX) {
            Some(n) => {
                octets.push(n as u8);
            },
            None => {
                return Err(failure(INVALID_ADDRESS, ip.as_str()));
            },
        }
        i = i + 1;
    }
    let digits = characters(port.as_str());
    match parse_decimal(&digits, PORT_MAX) {
        Some(p) => Ok(SocketAddress::new(octets[0], octets[1], octets[2], octets[3], p as u16)),
        None => Err(failure(INVALID_PORT, port.as_str())),
    }
}

/// Turns a comma-separated list of byte values, such as `65,66,67`, into the
/// text whose characters have those values as code points (`ABC`). Each
/// value is a numeral of at most 255; anything else is rejected.
pub fn ascii_to_utf_8(input: String) -> (r: Result<String, RokitError>)
    ensures
        match r {
            Ok(s) => byte_list_text(input@) == Some(s@),
            Err(e) => byte_list_text(input@) is None && e@ == fatal(INVALID_BYTE_LIST@),
        },
{
    let parts = split(input.as_str(), ',');
    let ghost texts = split_on(input@, ',');
    let mut out = String::new();
    let mut i: usize = 0;
    while i < parts.len()
        invariant
            i <= parts.len(),
            texts == split_on(input@, ','),
            segments(parts@) == texts,
            out@.len() == i,
            forall|j: int| 0 <= j < i ==> is_octet(#[trigger] texts[j]),
            forall|j: int| 0 <= j < i ==> out@[j] == octet_at(texts, j) as char,
        decreases parts.len() - i,
    {
        proof {
            assert(texts[i as int] == parts[i as int]@);
        }
        match parse_decimal(&parts[i], OCTET_MAX) {
            Some(n) => {
                out.push(n as u8 as char);
            },
            None => {
                return Err(RokitError::new_msg(String::from_str(INVALID_BYTE_LIST)));
            },
        }
        i = i + 1;
    }
    proof {
        assert(out@ =~= byte_list_text(input@).unwrap());
    }
    Ok(out)
}

/// A numeral holds no dot.
pub proof fn lemma_numeral_lacks_dot(s: Seq<char>, max: nat)
    requires
        parse_unsigned(s, max) is Some,
    ensures
        forall|i: int| 0 <= i < s.len() ==> s[i] != '.',
{
    let digits = numeral_digits(s);
    assert forall|i: int| 0 <= i < s.len() implies s[i] != '.' by {
        if s[0] == '+' {
            if i > 0 {
                assert(is_digit(digits[i - 1]));
            }
        } else {
            assert(is_digit(digits[i]));
        }
    }
}

/// Every well-formed host and port resolve, and to the address they
/// denote: four numerals of at most 255 with dots between, and a numeral
/// of at most 65535, give the address of those four octets and that port.
pub proof fn lemma_parse_valid_address(
    a: Seq<char>,
    b: Seq<char>,
    c: Seq<char>,
    d: Seq<char>,
    port: Seq<char>,
)
    requires
        is_octet(a),
        is_octet(b),
        is_octet(c),
        is_octet(d),
        is_port(port),
    ensures
        parse_address(a.push('.') + b.push('.') + c.push('.') + d, port) == Ok::<
            SocketAddress,
            ErrorView,
        >(
            SocketAddress {
                a: octet_of(a),
                b: octet_of(b),
                c: octet_of(c),
                d: octet_of(d),
                port: port_of(port),
            },
        ),
{
    lemma_numeral_lacks_dot(a, OCTET_MAX as nat);
    lemma_numeral_lacks_dot(b, OCTET_MAX as nat);
    lemma_numeral_lacks_dot(c, OCTET_MAX as nat);
    lemma_numeral_lacks_dot(d, OCTET_MAX as nat);
    lemma_split_on_plain(a, '.');
    lemma_split_on_append(a, '.', b);
    lemma_split_on_append(a.push('.') + b, '.', c);
    lemma_split_on_append(a.push('.') + b.push('.') + c, '.', d);
    assert((a.push('.') + b).push('.') =~= a.push('.') + b.push('.'));
    assert((a.push('.') + b.push('.') + c).push('.') =~= a.push('.') + b.push('.') + c.push('.'));
    let parts = split_on(a.push('.') + b.push('.') + c.push('.') + d, '.');
    assert(parts =~= seq![a, b, c, d]);
    assert(all_octets(parts));
}

/// An address that is written out and read back is the same address.
pub proof fn lemma_parse_written_address(addr: SocketAddress)
    ensures
        parse_address(addr.host_text(), addr.port_text()) == Ok::<SocketAddress, ErrorView>(addr),
{
    lemma_parse_decimal_text(addr.a as nat, OCTET_MAX as nat);
    lemma_parse_decimal_text(addr.b as nat, OCTET_MAX as nat);
    lemma_parse_decimal_text(addr.c as nat, OCTET_MAX as nat);
    lemma_parse_decimal_text(addr.d as nat, OCTET_MAX as nat);
    lemma_parse_decimal_text(addr.port as nat, PORT_MAX as nat);
    lemma_parse_valid_address(
        decimal_text(addr.a as nat),
        decimal_text(addr.b as nat),
        decimal_text(addr.c as nat),
        decimal_text(addr.d as nat),
        decimal_text(addr.port as nat),
    );
}

/// Nothing malformed resolves, and each fault gives its own error: a host
/// without exactly three dots, or with a segment that is no numeral of at
/// most 255, gives the error that names the host, whatever the port; a
/// well-formed host with a port that is no numeral of at most 65535 gives
/// the error that names the port. In neither case is there an address.
pub proof fn lemma_parse_rejects(ip: Seq<char>, port: Seq<char>)
    ensures
        count_of(ip, '.') != 3 ==> parse_address(ip, port) == Err::<SocketAddress, ErrorView>(
            fatal(INVALID_ADDRESS@ + ip),
        ),
        !all_octets(split_on(ip, '.')) ==> parse_address(ip, port) == Err::<
            SocketAddress,
            ErrorView,
        >(fatal(INVALID_ADDRESS@ + ip)),
        parse_host(ip) is Some && !is_port(port) ==> parse_address(ip, port) == Err::<
            SocketAddress,
            ErrorView,
        >(fatal(INVALID_PORT@ + port)),
        parse_address(ip, port) is Ok <==> parse_host(ip) is Some && is_port(port),
{
    lemma_split_on(ip, '.');
}

} // verus!
