use ln_types::node_id::NodeIdErrorKind;
use ln_types::p2p_address::{IpAddr, ParseErrorKind};
use ln_types::{NodeId, P2PAddress};

const ID: &str = "022345678901234567890123456789012345678901234567890123456789abcdef";

#[test]
fn empty() {
    assert!("".parse::<P2PAddress>().is_err());
}

#[test]
fn invalid_node_id() {
    assert!("@example.com".parse::<P2PAddress>().is_err());
}

#[test]
fn invalid_port() {
    assert!("022345678901234567890123456789012345678901234567890123456789abcdef@example.com:foo".parse::<P2PAddress>().is_err());
}

#[test]
fn correct_hostname_no_port() {
    let input = "022345678901234567890123456789012345678901234567890123456789abcdef@example.com";
    let parsed = input.parse::<P2PAddress>().unwrap();
    let output = parsed.to_string();
    let expected = format!("{}{}", input, ":9735");
    assert_eq!(output, expected);
}

#[test]
fn correct_with_hostname_port() {
    let input = "022345678901234567890123456789012345678901234567890123456789abcdef@example.com:1234";
    let parsed = input.parse::<P2PAddress>().unwrap();
    let output = parsed.to_string();
    assert_eq!(output, input);
}

#[test]
fn correct_ipv4_no_port() {
    let input = "022345678901234567890123456789012345678901234567890123456789abcdef@127.0.0.1";
    let parsed = input.parse::<P2PAddress>().unwrap();
    let output = parsed.to_string();
    let expected = format!("{}{}", input, ":9735");
    assert_eq!(output, expected);
}

#[test]
fn correct_with_ipv4_port() {
    let input = "022345678901234567890123456789012345678901234567890123456789abcdef@127.0.0.1:1234";
    let parsed = input.parse::<P2PAddress>().unwrap();
    let output = parsed.to_string();
    assert_eq!(output, input);
}

#[test]
fn ipv6_no_port() {
    let input = "022345678901234567890123456789012345678901234567890123456789abcdef@[::1]";
    let parsed = input.parse::<P2PAddress>().unwrap();
    let output = parsed.to_string();
    let expected = format!("{}{}", input, ":9735");
    assert_eq!(output, expected);
}

#[test]
fn ipv6_with_port() {
    let input = "022345678901234567890123456789012345678901234567890123456789abcdef@[::1]:1234";
    let parsed = input.parse::<P2PAddress>().unwrap();
    let output = parsed.to_string();
    assert_eq!(output, input);
}

#[test]
fn parse_p2p_address_error_empty() {
    let e = P2PAddress::parse("").unwrap_err();
    assert_eq!(e.kind(), ParseErrorKind::MissingAtSymbol);
    assert_eq!(e.input(), "");
}

#[test]
fn parse_p2p_address_error_empty_node_id() {
    let e = P2PAddress::parse("@127.0.0.1").unwrap_err();
    assert_eq!(e.kind(), ParseErrorKind::InvalidNodeId);
    assert_eq!(e.input(), "@127.0.0.1");
    let inner = e.node_id_error().unwrap();
    assert_eq!(inner.input(), "");
    assert_eq!(inner.kind(), NodeIdErrorKind::InvalidLength);
}

#[test]
fn hostname_example() {
    let marvin = P2PAddress::parse("029ef8ee0ba895e2807ac1df1987a7888116c468e70f42e7b089e06811b0e45482@ln-ask.me").unwrap();
    assert_eq!(marvin.node_id.to_string(), "029ef8ee0ba895e2807ac1df1987a7888116c468e70f42e7b089e06811b0e45482");
    assert!(!marvin.host.is_ip_addr());
    assert!(!marvin.host.is_onion());
    assert_eq!(marvin.host.to_string(), "ln-ask.me");
    assert_eq!(marvin.port, 9735);
}

#[test]
fn invalid_port_kind() {
    let e = P2PAddress::parse(&format!("{}@example.com:foo", ID)).unwrap_err();
    assert_eq!(e.kind(), ParseErrorKind::InvalidPortNumber);
    let e = P2PAddress::parse(&format!("{}@example.com:65536", ID)).unwrap_err();
    assert_eq!(e.kind(), ParseErrorKind::InvalidPortNumber);
    let e = P2PAddress::parse(&format!("{}@example.com:", ID)).unwrap_err();
    assert_eq!(e.kind(), ParseErrorKind::InvalidPortNumber);
}

#[test]
fn invalid_ipv6_kind() {
    let e = P2PAddress::parse(&format!("{}@[not-ip]", ID)).unwrap_err();
    assert_eq!(e.kind(), ParseErrorKind::InvalidIpv6);
    // without the closing bracket the last `:` separates the port
    let a = P2PAddress::parse(&format!("{}@[::1", ID)).unwrap();
    assert_eq!(a.host.to_string(), "[:");
    assert_eq!(a.port, 1);
}

#[test]
fn invalid_node_id_char() {
    let bad = "02234567890123456789012345678901234567890123456789012345678xabcdef@host";
    let e = P2PAddress::parse(bad).unwrap_err();
    assert_eq!(e.kind(), ParseErrorKind::InvalidNodeId);
    assert_eq!(e.node_id_error().unwrap().kind(), NodeIdErrorKind::InvalidChar(59));
}

#[test]
fn port_bounds() {
    let a = P2PAddress::parse(&format!("{}@10.0.0.1:0", ID)).unwrap();
    assert_eq!(a.port, 0);
    let a = P2PAddress::parse(&format!("{}@10.0.0.1:65535", ID)).unwrap();
    assert_eq!(a.port, 65535);
    assert_eq!(a.to_string(), format!("{}@10.0.0.1:65535", ID));
}

#[test]
fn ip_hosts() {
    let a = P2PAddress::parse(&format!("{}@192.168.1.20:80", ID)).unwrap();
    assert!(a.host.is_ip_addr());
    assert_eq!(a.host.to_ip_addr().unwrap(), IpAddr::V4([192, 168, 1, 20]));
    assert_eq!(a.as_host_port().to_string(), "192.168.1.20:80");
    let b = P2PAddress::parse(&format!("{}@[2001:db8::ff00:42:8329]:9000", ID)).unwrap();
    assert_eq!(b.host.to_ip_addr().unwrap(), IpAddr::V6([0x2001, 0xdb8, 0, 0, 0, 0xff00, 0x42, 0x8329]));
    assert_eq!(b.host.to_string(), "2001:db8::ff00:42:8329");
    assert_eq!(b.as_host_port().to_string(), "[2001:db8::ff00:42:8329]:9000");
    // leading zeros in an octet make the text a hostname, as std does not read it as IPv4
    let c = P2PAddress::parse(&format!("{}@127.0.0.01", ID)).unwrap();
    assert!(!c.host.is_ip_addr());
    assert_eq!(c.host.to_ip_addr().unwrap_err().hostname(), "127.0.0.01");
}

#[test]
fn ipv6_canonical_form() {
    let a = P2PAddress::parse(&format!("{}@[0:0:0:0:0:0:0:1]", ID)).unwrap();
    assert_eq!(a.to_string(), format!("{}@[::1]:9735", ID));
}

#[test]
fn onion_host() {
    let a = P2PAddress::parse(&format!("{}@abcdefghij.onion:9735", ID)).unwrap();
    assert!(a.host.is_onion());
    assert!(!a.host.is_ip_addr());
}

#[test]
fn upper_case_and_normalisation() {
    let upper = "022345678901234567890123456789012345678901234567890123456789ABCDEF@example.com:1";
    let a = P2PAddress::parse(upper).unwrap();
    assert_eq!(a.to_text(true), upper);
    assert_eq!(a.to_string(), format!("{}@example.com:1", ID));
}

#[test]
fn first_at_symbol_delimits() {
    let a = P2PAddress::parse(&format!("{}@user@host", ID)).unwrap();
    assert_eq!(a.host.to_string(), "user@host");
}

#[test]
fn value_round_trip() {
    let inputs = [
        format!("{}@ln-ask.me", ID),
        format!("{}@127.0.0.1", ID),
        format!("{}@[::1]", ID),
        format!("{}@[::ffff:1.2.3.4]:77", ID),
        format!("{}@a:b:7", ID),
        format!("{}@", ID),
    ];
    for s in inputs.iter() {
        let a = P2PAddress::parse(s).unwrap();
        let b = P2PAddress::parse(&a.to_string()).unwrap();
        assert_eq!(a.to_string(), b.to_string());
        assert_eq!(a.port, b.port);
        assert_eq!(a.node_id, b.node_id);
    }
}

#[test]
fn node_id_hex() {
    let id = NodeId::parse(ID).unwrap();
    assert_eq!(id.as_bytes().len(), 33);
    assert_eq!(id.as_bytes()[0], 0x02);
    assert_eq!(id.as_bytes()[32], 0xef);
    assert_eq!(id.to_hex(true), ID.to_uppercase());
    assert_eq!(id.to_string(), ID);
    assert_eq!(NodeId::parse("02").unwrap_err().kind(), NodeIdErrorKind::InvalidLength);
}
