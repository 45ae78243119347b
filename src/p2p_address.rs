//! P2P address of a Lightning Network node: `node_id@host:port`.
//!
//! The host is an IPv4 address, a bracketed IPv6 address or a hostname; the
//! port defaults to 9735 when the text leaves it out. Formatting always writes
//! the port, and the text it writes parses back to the same address.

use vstd::prelude::*;
use crate::node_id::{self, NodeId, hex_bytes, hex_text, is_node_id_text, lemma_hex_round_trip};
use crate::text::{
    all_digits, dec_text, ends_with, find_char, first_of, has_suffix, is_digit, is_first_at,
    is_last_at, is_unsigned_text, lacks, last_of, lemma_dec_text, lemma_first_of, lemma_last_of,
    parse_u16, push_char, rfind_char, u64_text, unsigned_value,
};

verus! {

/// The standard port of the Lightning Network peer protocol.
pub const LN_DEFAULT_PORT: u16 = 9735;

/// Dotted-decimal text of four octets.
pub open spec fn ipv4_text(o: Seq<u8>) -> Seq<char> {
    dec_text(o[0] as nat) + seq!['.'] + (dec_text(o[1] as nat) + seq!['.'] + (dec_text(
        o[2] as nat,
    ) + seq!['.'] + dec_text(o[3] as nat)))
}

/// `s` is the dotted-decimal text of some IPv4 address.
pub open spec fn is_ipv4_text(s: Seq<char>) -> bool {
    exists|o: Seq<u8>| o.len() == 4 && s == #[trigger] ipv4_text(o)
}

/// The eight segments that std's IPv6 parser reads from `s`, if it accepts it.
pub uninterp spec fn ipv6_from_text(s: Seq<char>) -> Option<Seq<u16>>;

/// The text that std writes for the IPv6 address with these segments.
pub uninterp spec fn ipv6_text(a: Seq<u16>) -> Seq<char>;

/// Relies on `Ipv4Addr`'s `FromStr`: it accepts exactly the dotted-decimal
/// form, four decimal octets without leading zeros, and returns the octets.
#[verifier::external_body]
fn parse_ipv4(s: &str) -> (r: Option<[u8; 4]>)
    ensures
        match r {
            Some(o) => s@ == ipv4_text(o@),
            None => !is_ipv4_text(s@),
        },
{
    s.parse::<core::net::Ipv4Addr>().ok().map(|a| a.octets())
}

/// Relies on `Ipv4Addr`'s `Display`: the four octets in decimal, separated by
/// dots.
#[verifier::external_body]
fn ipv4_to_string(o: [u8; 4]) -> (r: String)
    ensures
        r@ == ipv4_text(o@),
{
    core::net::Ipv4Addr::from(o).to_string()
}

/// Relies on `Ipv6Addr`'s `FromStr`: the segments of the address it reads.
#[verifier::external_body]
fn parse_ipv6(s: &str) -> (r: Option<[u16; 8]>)
    ensures
        match r {
            Some(a) => ipv6_from_text(s@) == Some(a@),
            None => ipv6_from_text(s@) is None,
        },
{
    s.parse::<core::net::Ipv6Addr>().ok().map(|a| a.segments())
}

/// Relies on `Ipv6Addr`'s `Display`: it writes the RFC 5952 form, which its
/// `FromStr` reads back as the same address.
#[verifier::external_body]
fn ipv6_to_string(a: [u16; 8]) -> (r: String)
    ensures
        r@ == ipv6_text(a@),
        ipv6_from_text(r@) == Some(a@),
{
    core::net::Ipv6Addr::from(a).to_string()
}

/// Mathematical value of a [`Host`].
pub enum HostView {
    Ipv4(Seq<u8>),
    Ipv6(Seq<u16>),
    Hostname(Seq<char>),
}

/// Mathematical value of a [`P2PAddress`]: node ID bytes, host and port.
pub type AddressView = (Seq<u8>, HostView, u16);

/// Why the text of a P2P address was refused.
#[derive(Clone, Copy, Debug, PartialEq, Eq, Structural)]
pub enum ParseErrorKind {
    MissingAtSymbol,
    InvalidNodeId,
    InvalidPortNumber,
    InvalidIpv6,
}

/// `s` is wrapped in square brackets.
pub open spec fn is_bracketed(s: Seq<char>) -> bool {
    s.len() >= 2 && s[0] == '[' && s[s.len() - 1] == ']'
}

/// The host that host text stands for: IPv4 text, else a bracketed IPv6
/// address (`None` if std refuses it), else a hostname.
pub open spec fn host_of_text(h: Seq<char>) -> Option<HostView> {
    if is_ipv4_text(h) {
        Some(HostView::Ipv4(choose|o: Seq<u8>| o.len() == 4 && h == ipv4_text(o)))
    } else if is_bracketed(h) {
        match ipv6_from_text(h.subrange(1, h.len() - 1)) {
            Some(a) => Some(HostView::Ipv6(a)),
            None => None,
        }
    } else {
        Some(HostView::Hostname(h))
    }
}

/// Where the host text ends and which port follows it; `None` when the text
/// after the last `:` is not a port number. Text wholly in brackets, or without
/// `:`, is all host, with the default port.
pub open spec fn port_split(hp: Seq<char>) -> Option<(int, u16)> {
    if is_bracketed(hp) {
        Some((hp.len() as int, LN_DEFAULT_PORT))
    } else {
        match last_of(hp, ':') {
            Some(p) => {
                let t = hp.subrange(p + 1, hp.len() as int);
                if is_unsigned_text(t) && unsigned_value(t) <= u16::MAX {
                    Some((p, unsigned_value(t) as u16))
                } else {
                    None
                }
            },
            None => Some((hp.len() as int, LN_DEFAULT_PORT)),
        }
    }
}

/// The host and port that the text after `@` stands for.
pub open spec fn host_port_of_text(hp: Seq<char>) -> Result<(HostView, u16), ParseErrorKind> {
    match port_split(hp) {
        None => Err(ParseErrorKind::InvalidPortNumber),
        Some((end, port)) => match host_of_text(hp.subrange(0, end)) {
            None => Err(ParseErrorKind::InvalidIpv6),
            Some(h) => Ok((h, port)),
        },
    }
}

/// The address that `node_id@host[:port]` stands for, or why it is refused.
/// Only the first `@` separates the node ID from the rest.
pub open spec fn address_of_text(s: Seq<char>) -> Result<AddressView, ParseErrorKind> {
    match first_of(s, '@') {
        None => Err(ParseErrorKind::MissingAtSymbol),
        Some(at) => {
            let id = s.subrange(0, at);
            if !is_node_id_text(id) {
                Err(ParseErrorKind::InvalidNodeId)
            } else {
                match host_port_of_text(s.subrange(at + 1, s.len() as int)) {
                    Err(k) => Err(k),
                    Ok((h, port)) => Ok((hex_bytes(id), h, port)),
                }
            }
        },
    }
}

/// Text of a host on its own: IPv6 addresses without brackets.
pub open spec fn host_text(h: HostView) -> Seq<char> {
    match h {
        HostView::Ipv4(o) => ipv4_text(o),
        HostView::Ipv6(a) => ipv6_text(a),
        HostView::Hostname(t) => t,
    }
}

/// Text of a host followed by a port: IPv6 addresses in brackets.
pub open spec fn host_port_text(h: HostView, port: u16) -> Seq<char> {
    match h {
        HostView::Ipv6(a) => seq!['['] + ipv6_text(a) + seq![']'] + seq![':'] + dec_text(
            port as nat,
        ),
        _ => host_text(h) + seq![':'] + dec_text(port as nat),
    }
}

/// Text of an address; the node ID in upper-case hex if `upper`.
pub open spec fn address_text(v: AddressView, upper: bool) -> Seq<char> {
    hex_text(v.0, upper) + seq!['@'] + host_port_text(v.1, v.2)
}

/// IP address held as its octets or segments.
#[derive(Clone, Copy, Debug, PartialEq, Eq, Hash)]
pub enum IpAddr {
    V4([u8; 4]),
    V6([u16; 8]),
}

#[derive(Debug)]
enum HostInner {
    Ip(IpAddr),
    Hostname(String),
}

/// Network address of a node: an IP address or a hostname.
#[derive(Debug)]
pub struct Host(HostInner);

impl View for Host {
    type V = HostView;

    closed spec fn view(&self) -> HostView {
        match self.0 {
            HostInner::Ip(IpAddr::V4(o)) => HostView::Ipv4(o@),
            HostInner::Ip(IpAddr::V6(a)) => HostView::Ipv6(a@),
            HostInner::Hostname(h) => HostView::Hostname(h@),
        }
    }
}

/// Error returned when converting (not resolving) a hostname to an IP address.
#[derive(Debug)]
pub struct NotIpAddr(String);

impl NotIpAddr {
    pub closed spec fn spec_hostname(&self) -> Seq<char> {
        self.0@
    }

    /// The hostname that is not an IP address.
    pub fn hostname(&self) -> (r: &str)
        ensures
            r@ == self.spec_hostname(),
    {
        self.0.as_str()
    }
}

/// The lengths of the parts of IPv4 text.
proof fn lemma_ipv4_text(o: Seq<u8>)
    requires
        o.len() == 4,
    ensures
        ipv4_text(o).len() > 0,
        is_digit(ipv4_text(o)[0]),
{
    lemma_dec_text(o[0] as nat);
    assert(ipv4_text(o)[0] == dec_text(o[0] as nat)[0]);
}

/// Digits followed by a dot split uniquely.
proof fn lemma_dot_split(x1: Seq<char>, y1: Seq<char>, x2: Seq<char>, y2: Seq<char>)
    requires
        all_digits(x1),
        all_digits(x2),
        x1 + seq!['.'] + y1 == x2 + seq!['.'] + y2,
    ensures
        x1 == x2,
        y1 == y2,
{
    let l = x1 + seq!['.'] + y1;
    let r = x2 + seq!['.'] + y2;
    if x1.len() < x2.len() {
        assert(l[x1.len() as int] == '.');
        assert(r[x1.len() as int] == x2[x1.len() as int]);
        assert(is_digit(x2[x1.len() as int]));
    } else if x2.len() < x1.len() {
        assert(r[x2.len() as int] == '.');
        assert(l[x2.len() as int] == x1[x2.len() as int]);
        assert(is_digit(x1[x2.len() as int]));
    }
    assert(x1 =~= l.subrange(0, x1.len() as int));
    assert(x2 =~= r.subrange(0, x2.len() as int));
    assert(y1 =~= l.subrange(x1.len() as int + 1, l.len() as int));
    assert(y2 =~= r.subrange(x2.len() as int + 1, r.len() as int));
}

/// Different octets have different dotted-decimal text.
proof fn lemma_ipv4_text_injective(o1: Seq<u8>, o2: Seq<u8>)
    requires
        o1.len() == 4,
        o2.len() == 4,
        ipv4_text(o1) == ipv4_text(o2),
    ensures
        o1 == o2,
{
    lemma_dec_text(o1[0] as nat);
    lemma_dec_text(o1[1] as nat);
    lemma_dec_text(o1[2] as nat);
    lemma_dec_text(o2[0] as nat);
    lemma_dec_text(o2[1] as nat);
    lemma_dec_text(o2[2] as nat);
    lemma_dec_text(o1[3] as nat);
    lemma_dec_text(o2[3] as nat);
    let t1 = dec_text(o1[1] as nat) + seq!['.'] + (dec_text(o1[2] as nat) + seq!['.'] + dec_text(
        o1[3] as nat,
    ));
    let t2 = dec_text(o2[1] as nat) + seq!['.'] + (dec_text(o2[2] as nat) + seq!['.'] + dec_text(
        o2[3] as nat,
    ));
    lemma_dot_split(dec_text(o1[0] as nat), t1, dec_text(o2[0] as nat), t2);
    let u1 = dec_text(o1[2] as nat) + seq!['.'] + dec_text(o1[3] as nat);
    let u2 = dec_text(o2[2] as nat) + seq!['.'] + dec_text(o2[3] as nat);
    lemma_dot_split(dec_text(o1[1] as nat), u1, dec_text(o2[1] as nat), u2);
    lemma_dot_split(dec_text(o1[2] as nat), dec_text(o1[3] as nat), dec_text(o2[2] as nat), dec_text(o2[3] as nat));
    assert(o1 =~= o2);
}

/// Reads host text as IPv4, else bracketed IPv6, else a hostname.
fn parse_host(h: &str) -> (r: Option<Host>)
    ensures
        match r {
            Some(x) => host_of_text(h@) == Some(x@),
            None => host_of_text(h@) is None,
        },
{
    match parse_ipv4(h) {
        Some(o) => {
            proof {
                let c = choose|q: Seq<u8>| q.len() == 4 && h@ == ipv4_text(q);
                lemma_ipv4_text_injective(c, o@);
            }
            Some(Host(HostInner::Ip(IpAddr::V4(o))))
        },
        None => {
            let n = h.unicode_len();
            if n >= 2 && h.get_char(0) == '[' && h.get_char(n - 1) == ']' {
                match parse_ipv6(h.substring_char(1, n - 1)) {
                    Some(a) => Some(Host(HostInner::Ip(IpAddr::V6(a)))),
                    None => None,
                }
            } else {
                Some(Host(HostInner::Hostname(h.to_owned())))
            }
        },
    }
}

/// The end of the host text and the port, or `None` for an invalid port.
fn split_port(hp: &str) -> (r: Option<(usize, u16)>)
    ensures
        match r {
            Some((end, port)) => port_split(hp@) == Some((end as int, port)),
            None => port_split(hp@) is None,
        },
{
    let n = hp.unicode_len();
    if n >= 2 && hp.get_char(0) == '[' && hp.get_char(n - 1) == ']' {
        return Some((n, LN_DEFAULT_PORT));
    }
    match rfind_char(hp, ':') {
        Some(pos) => match parse_u16(hp.substring_char(pos + 1, n)) {
            Some(port) => Some((pos, port)),
            None => None,
        },
        None => Some((n, LN_DEFAULT_PORT)),
    }
}

impl Host {
    /// A hostname is never IPv4 text nor wrapped in brackets: such text is read
    /// as an IP address.
    #[verifier::type_invariant]
    spec fn hostname_is_not_ip(self) -> bool {
        match self.0 {
            HostInner::Hostname(h) => !is_ipv4_text(h@) && !is_bracketed(h@),
            HostInner::Ip(_) => true,
        }
    }

    /// Whether this is an onion (Tor) address: a hostname ending in `.onion`.
    pub fn is_onion(&self) -> (r: bool)
        ensures
            r == (match self@ {
                HostView::Hostname(h) => has_suffix(h, ".onion"@),
                _ => false,
            }),
    {
        match &self.0 {
            HostInner::Hostname(h) => ends_with(h.as_str(), ".onion"),
            HostInner::Ip(_) => false,
        }
    }

    /// Whether this is an IP address.
    pub fn is_ip_addr(&self) -> (r: bool)
        ensures
            r == !(self@ is Hostname),
    {
        match &self.0 {
            HostInner::Hostname(_) => false,
            HostInner::Ip(_) => true,
        }
    }

    /// The IP address, without resolving a hostname.
    pub fn to_ip_addr(&self) -> (r: Result<IpAddr, NotIpAddr>)
        ensures
            match r {
                Ok(IpAddr::V4(o)) => self@ == HostView::Ipv4(o@),
                Ok(IpAddr::V6(a)) => self@ == HostView::Ipv6(a@),
                Err(e) => self@ == HostView::Hostname(e.spec_hostname()),
            },
    {
        match &self.0 {
            HostInner::Ip(ip) => Ok(*ip),
            HostInner::Hostname(h) => Err(NotIpAddr(h.clone())),
        }
    }

    /// The text of the host on its own; an IPv6 address without brackets.
    pub fn to_string(&self) -> (r: String)
        ensures
            r@ == host_text(self@),
    {
        match &self.0 {
            HostInner::Ip(IpAddr::V4(o)) => ipv4_to_string(*o),
            HostInner::Ip(IpAddr::V6(a)) => ipv6_to_string(*a),
            HostInner::Hostname(h) => h.clone(),
        }
    }
}

impl Clone for Host {
    fn clone(&self) -> (r: Host)
        ensures
            r@ == self@,
    {
        proof {
            use_type_invariant(self);
        }
        match &self.0 {
            HostInner::Ip(ip) => Host(HostInner::Ip(*ip)),
            HostInner::Hostname(h) => Host(HostInner::Hostname(h.clone())),
        }
    }
}

/// A host with a port, for writing `host:port` with IPv6 addresses in brackets.
#[derive(Clone, Debug)]
pub struct HostPort(pub Host, pub u16);

impl HostPort {
    /// `host:port`, or `[ipv6]:port`; the text reads back as the same host and
    /// port.
    pub fn to_string(&self) -> (r: String)
        ensures
            r@ == host_port_text(self.0@, self.1),
            host_port_of_text(r@) == Ok::<(HostView, u16), ParseErrorKind>((self.0@, self.1)),
    {
        proof {
            use_type_invariant(&self.0);
        }
        let mut r = match &self.0.0 {
            HostInner::Ip(IpAddr::V6(a)) => {
                let mut b = String::new();
                push_char(&mut b, '[');
                let t = ipv6_to_string(*a);
                b.append(t.as_str());
                push_char(&mut b, ']');
                proof {
                    assert(b@.subrange(1, b@.len() - 1) =~= t@);
                    assert forall|o: Seq<u8>| o.len() == 4 implies b@ != #[trigger] ipv4_text(o) by {
                        lemma_ipv4_text(o);
                    }
                }
                b
            },
            _ => self.0.to_string(),
        };
        assert(host_of_text(r@) == Some(self.0@)) by {
            if let HostView::Ipv4(o) = self.0@ {
                let c = choose|q: Seq<u8>| q.len() == 4 && r@ == ipv4_text(q);
                lemma_ipv4_text_injective(c, o);
            }
        }
        let ghost h = r@;
        push_char(&mut r, ':');
        let p = u64_text(self.1 as u64);
        r.append(p.as_str());
        proof {
            let d = dec_text(self.1 as nat);
            lemma_dec_text(self.1 as nat);
            assert(r@ =~= h + seq![':'] + d);
            let l = h.len() as int;
            assert(r@.subrange(l + 1, r@.len() as int) =~= d);
            assert(r@.subrange(0, l) =~= h);
            assert(lacks(d, ':')) by {
                assert forall|i: int| 0 <= i < d.len() implies d[i] != ':' by {
                    assert(is_digit(d[i]));
                }
            }
            assert(is_last_at(r@, ':', l));
            lemma_last_of(r@, ':', l);
            assert(r@[r@.len() - 1] == d[d.len() - 1]);
            assert(is_digit(d[d.len() - 1]));
        }
        r
    }
}

/// Error returned when parsing the text of a P2P address fails.
#[derive(Clone, Debug)]
pub struct ParseError {
    input: String,
    reason: ParseErrorInner,
}

#[derive(Clone, Debug)]
enum ParseErrorInner {
    MissingAtSymbol,
    InvalidNodeId(node_id::ParseError),
    InvalidPortNumber,
    InvalidIpv6,
}

impl ParseErrorInner {
    spec fn spec_kind(&self) -> ParseErrorKind {
        match self {
            ParseErrorInner::MissingAtSymbol => ParseErrorKind::MissingAtSymbol,
            ParseErrorInner::InvalidNodeId(_) => ParseErrorKind::InvalidNodeId,
            ParseErrorInner::InvalidPortNumber => ParseErrorKind::InvalidPortNumber,
            ParseErrorInner::InvalidIpv6 => ParseErrorKind::InvalidIpv6,
        }
    }
}

impl ParseError {
    pub closed spec fn spec_input(&self) -> Seq<char> {
        self.input@
    }

    pub closed spec fn spec_kind(&self) -> ParseErrorKind {
        self.reason.spec_kind()
    }

    /// The text that was refused.
    pub fn input(&self) -> (r: &str)
        ensures
            r@ == self.spec_input(),
    {
        self.input.as_str()
    }

    /// Why the text was refused.
    pub fn kind(&self) -> (r: ParseErrorKind)
        ensures
            r == self.spec_kind(),
    {
        match &self.reason {
            ParseErrorInner::MissingAtSymbol => ParseErrorKind::MissingAtSymbol,
            ParseErrorInner::InvalidNodeId(_) => ParseErrorKind::InvalidNodeId,
            ParseErrorInner::InvalidPortNumber => ParseErrorKind::InvalidPortNumber,
            ParseErrorInner::InvalidIpv6 => ParseErrorKind::InvalidIpv6,
        }
    }

    /// The node ID error behind this one, where the node ID was refused.
    pub fn node_id_error(&self) -> (r: Option<node_id::ParseError>)
        ensures
            r is Some <==> self.spec_kind() == ParseErrorKind::InvalidNodeId,
    {
        match &self.reason {
            ParseErrorInner::InvalidNodeId(e) => Some(e.clone()),
            _ => None,
        }
    }
}

/// Parsed Lightning P2P address: node ID, host and port.
#[derive(Clone, Debug)]
pub struct P2PAddress {
    /// The public key of the node.
    pub node_id: NodeId,
    /// The network address of the node.
    pub host: Host,
    /// The port of the node.
    pub port: u16,
}

impl View for P2PAddress {
    type V = AddressView;

    open spec fn view(&self) -> AddressView {
        (self.node_id@, self.host@, self.port)
    }
}

impl P2PAddress {
    /// The host and port, for writing `host:port` without the node ID.
    pub fn as_host_port(&self) -> (r: HostPort)
        ensures
            r.0@ == self.host@,
            r.1 == self.port,
    {
        HostPort(self.host.clone(), self.port)
    }

    /// Splits `node_id@host[:port]` into its three parts.
    fn parse_raw(s: &str) -> (r: Result<(NodeId, Host, u16), ParseErrorInner>)
        ensures
            match r {
                Ok((id, h, port)) => address_of_text(s@) == Ok::<AddressView, ParseErrorKind>((id@, h@, port)),
                Err(e) => address_of_text(s@) == Err::<AddressView, ParseErrorKind>(e.spec_kind()),
            },
    {
        let at: usize = match find_char(s, '@') {
            Some(i) => i,
            None => {
                return Err(ParseErrorInner::MissingAtSymbol);
            },
        };
        let n = s.unicode_len();
        let node_id = match NodeId::parse(s.substring_char(0, at)) {
            Ok(id) => id,
            Err(e) => {
                return Err(ParseErrorInner::InvalidNodeId(e));
            },
        };
        let host_port = s.substring_char(at + 1, n);
        let split: (usize, u16) = match split_port(host_port) {
            Some(x) => x,
            None => {
                return Err(ParseErrorInner::InvalidPortNumber);
            },
        };
        let host = match parse_host(host_port.substring_char(0, split.0)) {
            Some(h) => h,
            None => {
                return Err(ParseErrorInner::InvalidIpv6);
            },
        };
        Ok((node_id, host, split.1))
    }

    /// Parses `node_id@host[:port]`: 66 hex digits, the first `@`, then an IPv4
    /// address, a bracketed IPv6 address or a hostname, and an optional port
    /// that defaults to 9735.
    pub fn parse(s: &str) -> (r: Result<P2PAddress, ParseError>)
        ensures
            match r {
                Ok(a) => address_of_text(s@) == Ok::<AddressView, ParseErrorKind>(a@),
                Err(e) => address_of_text(s@) == Err::<AddressView, ParseErrorKind>(e.spec_kind()) && e.spec_input() == s@,
            },
    {
        match P2PAddress::parse_raw(s) {
            Ok((node_id, host, port)) => Ok(P2PAddress { node_id, host, port }),
            Err(reason) => Err(ParseError { input: s.to_string(), reason }),
        }
    }

    /// `node_id@host:port` with the node ID in upper-case hex if `upper`, else
    /// in lower case; the port is always written. The text parses back to the
    /// same address.
    pub fn to_text(&self, upper: bool) -> (r: String)
        ensures
            r@ == address_text(self@, upper),
            address_of_text(r@) == Ok::<AddressView, ParseErrorKind>(self@),
    {
        let mut r = self.node_id.to_hex(upper);
        let ghost id = r@;
        push_char(&mut r, '@');
        let hp = self.as_host_port().to_string();
        r.append(hp.as_str());
        proof {
            lemma_hex_round_trip(self.node_id@, upper);
            let l = id.len() as int;
            assert(r@ =~= id + seq!['@'] + hp@);
            assert(r@.subrange(0, l) =~= id);
            assert(r@.subrange(l + 1, r@.len() as int) =~= hp@);
            assert(lacks(id, '@')) by {
                assert forall|i: int| 0 <= i < id.len() implies id[i] != '@' by {
                    assert(node_id::is_hex_digit(id[i]));
                }
            }
            assert(is_first_at(r@, '@', l));
            lemma_first_of(r@, '@', l);
        }
        r
    }

    /// `node_id@host:port` with the node ID in lower-case hex.
    pub fn to_string(&self) -> (r: String)
        ensures
            r@ == address_text(self@, false),
            address_of_text(r@) == Ok::<AddressView, ParseErrorKind>(self@),
    {
        self.to_text(false)
    }
}

impl core::str::FromStr for P2PAddress {
    type Err = ParseError;

    fn from_str(s: &str) -> Result<P2PAddress, ParseError> {
        P2PAddress::parse(s)
    }
}

} // verus!
