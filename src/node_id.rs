//! Public key of a Lightning Network node, written as 66 hex digits.

use vstd::prelude::*;
use crate::text::{digit_char, is_digit, push_char};

verus! {

/// Number of bytes in a node ID.
pub const NODE_ID_LEN: usize = 33;

/// `c` is a hex digit of either case.
pub open spec fn is_hex_digit(c: char) -> bool {
    is_digit(c) || ('a' <= c && c <= 'f') || ('A' <= c && c <= 'F')
}

/// The value of a hex digit of either case.
pub open spec fn hex_digit_value(c: char) -> nat {
    if is_digit(c) {
        ((c as u32) - ('0' as u32)) as nat
    } else if 'a' <= c && c <= 'f' {
        ((c as u32) - ('a' as u32) + 10) as nat
    } else {
        ((c as u32) - ('A' as u32) + 10) as nat
    }
}

/// The hex digit for `d < 16`, in lower or upper case.
pub open spec fn hex_char(d: nat, upper: bool) -> char {
    if d < 10 {
        digit_char(d)
    } else if upper {
        ((d - 10 + ('A' as u32)) as u32) as char
    } else {
        ((d - 10 + ('a' as u32)) as u32) as char
    }
}

/// Text of a node ID: exactly 66 hex digits.
pub open spec fn is_node_id_text(s: Seq<char>) -> bool {
    s.len() == 2 * NODE_ID_LEN && forall|i: int| 0 <= i < s.len() ==> #[trigger] is_hex_digit(s[i])
}

/// The bytes written by hex text, two digits per byte, high digit first.
pub open spec fn hex_bytes(s: Seq<char>) -> Seq<u8> {
    Seq::new(
        (s.len() / 2) as nat,
        |i: int| (hex_digit_value(s[2 * i]) * 16 + hex_digit_value(s[2 * i + 1])) as u8,
    )
}

/// Hex text of bytes, two digits per byte, high digit first.
pub open spec fn hex_text(b: Seq<u8>, upper: bool) -> Seq<char> {
    Seq::new(
        2 * b.len(),
        |i: int|
            if i % 2 == 0 {
                hex_char((b[i / 2] / 16) as nat, upper)
            } else {
                hex_char((b[i / 2] % 16) as nat, upper)
            },
    )
}

/// Public key of a node: 33 bytes.
#[derive(Debug, PartialEq, Eq, Hash, PartialOrd, Ord)]
pub struct NodeId {
    bytes: Vec<u8>,
}

impl View for NodeId {
    type V = Seq<u8>;

    closed spec fn view(&self) -> Seq<u8> {
        self.bytes@
    }
}

impl Clone for NodeId {
    fn clone(&self) -> (r: NodeId)
        ensures
            r@ == self@,
    {
        proof {
            use_type_invariant(self);
        }
        NodeId { bytes: self.bytes.clone() }
    }
}

/// Why the text of a node ID was refused.
#[derive(Clone, Copy, Debug, PartialEq, Eq, Structural)]
pub enum NodeIdErrorKind {
    /// The text is not 66 characters long.
    InvalidLength,
    /// The character at this index is not a hex digit.
    InvalidChar(usize),
}

/// Error returned when parsing the text of a node ID fails.
#[derive(Clone, Debug)]
pub struct ParseError {
    input: String,
    kind: NodeIdErrorKind,
}

impl ParseError {
    pub closed spec fn spec_input(&self) -> Seq<char> {
        self.input@
    }

    pub closed spec fn spec_kind(&self) -> NodeIdErrorKind {
        self.kind
    }

    /// The text that was refused.
    pub fn input(&self) -> (r: &str)
        ensures
            r@ == self.spec_input(),
    {
        self.input.as_str()
    }

    /// Why the text was refused.
    pub fn kind(&self) -> (r: NodeIdErrorKind)
        ensures
            r == self.spec_kind(),
    {
        self.kind
    }
}

/// The value of a hex digit, if `c` is one.
fn hex_digit(c: char) -> (r: Option<u8>)
    ensures
        match r {
            Some(v) => is_hex_digit(c) && v as nat == hex_digit_value(c) && v < 16,
            None => !is_hex_digit(c),
        },
{
    if '0' <= c && c <= '9' {
        Some(((c as u32) - ('0' as u32)) as u8)
    } else if 'a' <= c && c <= 'f' {
        Some(((c as u32) - ('a' as u32) + 10) as u8)
    } else if 'A' <= c && c <= 'F' {
        Some(((c as u32) - ('A' as u32) + 10) as u8)
    } else {
        None
    }
}

/// The hex digit for `d < 16`.
fn hex_digit_char(d: u8, upper: bool) -> (r: char)
    requires
        d < 16,
    ensures
        r == hex_char(d as nat, upper),
{
    if d < 10 {
        ((d as u32 + ('0' as u32)) as u8) as char
    } else if upper {
        ((d as u32 - 10 + ('A' as u32)) as u8) as char
    } else {
        ((d as u32 - 10 + ('a' as u32)) as u8) as char
    }
}

impl NodeId {
    /// Every node ID holds exactly 33 bytes.
    #[verifier::type_invariant]
    spec fn has_key_len(self) -> bool {
        self.bytes@.len() == NODE_ID_LEN
    }

    /// Parses 66 hex digits of either case.
    pub fn parse(s: &str) -> (r: Result<NodeId, ParseError>)
        ensures
            match r {
                Ok(id) => is_node_id_text(s@) && id@ == hex_bytes(s@),
                Err(e) => !is_node_id_text(s@) && e.spec_input() == s@ && match e.spec_kind() {
                    NodeIdErrorKind::InvalidLength => s@.len() != 2 * NODE_ID_LEN,
                    NodeIdErrorKind::InvalidChar(i) => s@.len() == 2 * NODE_ID_LEN && i < s@.len()
                        && !is_hex_digit(s@[i as int]),
                },
            },
    {
        let n = s.unicode_len();
        if n != 2 * NODE_ID_LEN {
            return Err(ParseError { input: s.to_string(), kind: NodeIdErrorKind::InvalidLength });
        }
        let mut bytes: Vec<u8> = Vec::new();
        let mut i: usize = 0;
        while i < NODE_ID_LEN
            invariant
                n == s@.len(),
                n == 2 * NODE_ID_LEN,
                i <= NODE_ID_LEN,
                bytes@.len() == i,
                forall|j: int| 0 <= j < 2 * i ==> #[trigger] is_hex_digit(s@[j]),
                forall|j: int|
                    0 <= j < i ==> #[trigger] bytes@[j] == (hex_digit_value(s@[2 * j]) * 16
                        + hex_digit_value(s@[2 * j + 1])) as u8,
            decreases NODE_ID_LEN - i,
        {
            let hi = match hex_digit(s.get_char(2 * i)) {
                Some(v) => v,
                None => {
                    return Err(
                        ParseError { input: s.to_string(), kind: NodeIdErrorKind::InvalidChar(2 * i) },
                    );
                },
            };
            let lo = match hex_digit(s.get_char(2 * i + 1)) {
                Some(v) => v,
                None => {
                    return Err(
                        ParseError {
                            input: s.to_string(),
                            kind: NodeIdErrorKind::InvalidChar(2 * i + 1),
                        },
                    );
                },
            };
            bytes.push(hi * 16 + lo);
            i = i + 1;
        }
        assert(bytes@ =~= hex_bytes(s@));
        Ok(NodeId { bytes })
    }

    /// The 33 bytes of the key.
    pub fn as_bytes(&self) -> (r: &[u8])
        ensures
            r@ == self@,
            r@.len() == NODE_ID_LEN,
    {
        proof {
            use_type_invariant(self);
        }
        self.bytes.as_slice()
    }

    /// The key as 66 hex digits, in upper case if `upper`, else in lower case.
    pub fn to_hex(&self, upper: bool) -> (r: String)
        ensures
            r@ == hex_text(self@, upper),
            r@.len() == 2 * NODE_ID_LEN,
    {
        proof {
            use_type_invariant(self);
        }
        let mut r = String::new();
        let mut i: usize = 0;
        while i < NODE_ID_LEN
            invariant
                self.bytes@.len() == NODE_ID_LEN,
                i <= NODE_ID_LEN,
                r@ =~= hex_text(self@.subrange(0, i as int), upper),
            decreases NODE_ID_LEN - i,
        {
            let b = self.bytes[i];
            push_char(&mut r, hex_digit_char(b / 16, upper));
            push_char(&mut r, hex_digit_char(b % 16, upper));
            assert(r@ =~= hex_text(self@.subrange(0, i + 1), upper));
            i = i + 1;
        }
        assert(self@.subrange(0, NODE_ID_LEN as int) =~= self@);
        r
    }

    /// The key as 66 lower-case hex digits.
    pub fn to_string(&self) -> (r: String)
        ensures
            r@ == hex_text(self@, false),
    {
        self.to_hex(false)
    }
}

/// The lower-case hex text of a node ID is node ID text and reads back as the
/// same bytes.
pub proof fn lemma_hex_round_trip(b: Seq<u8>, upper: bool)
    requires
        b.len() == NODE_ID_LEN,
    ensures
        is_node_id_text(hex_text(b, upper)),
        hex_bytes(hex_text(b, upper)) == b,
{
    let t = hex_text(b, upper);
    assert forall|i: int| 0 <= i < t.len() implies #[trigger] is_hex_digit(t[i]) by {
        lemma_hex_char((b[i / 2] / 16) as nat, upper);
        lemma_hex_char((b[i / 2] % 16) as nat, upper);
    }
    assert forall|i: int| 0 <= i < b.len() implies #[trigger] hex_bytes(t)[i] == b[i] by {
        lemma_hex_char((b[i] / 16) as nat, upper);
        lemma_hex_char((b[i] % 16) as nat, upper);
        assert(t[2 * i] == hex_char((b[i] / 16) as nat, upper));
        assert(t[2 * i + 1] == hex_char((b[i] % 16) as nat, upper));
    }
    assert(hex_bytes(t) =~= b);
}

/// A hex digit reads back as its value.
proof fn lemma_hex_char(d: nat, upper: bool)
    requires
        d < 16,
    ensures
        is_hex_digit(hex_char(d, upper)),
        hex_digit_value(hex_char(d, upper)) == d,
        hex_char(d, upper) != '@',
        hex_char(d, upper) != ':',
{
}

} // verus!
