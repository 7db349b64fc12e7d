//! Peer addresses: the identity of a peer is the socket address seen on the
//! other end of a connection, and two peers differ exactly when their
//! addresses differ.

use vstd::prelude::*;

verus! {

/// A socket address: the octets of an IP address, most significant first, and
/// a port.
#[derive(Clone, Copy, Debug, PartialEq, Eq, Hash)]
pub enum PeerAddr {
    V4([u8; 4], u16),
    V6([u8; 16], u16),
}

/// Lexicographic "less than" on two byte strings.
pub open spec fn lex_lt(a: Seq<u8>, b: Seq<u8>) -> bool
    decreases a.len(),
{
    if a.len() == 0 || b.len() == 0 {
        a.len() == 0 && b.len() > 0
    } else if a[0] != b[0] {
        a[0] < b[0]
    } else {
        lex_lt(a.drop_first(), b.drop_first())
    }
}

impl PeerAddr {
    pub open spec fn spec_is_ipv4(&self) -> bool {
        self is V4
    }

    /// The octets of the IP address, most significant first.
    pub open spec fn octets(&self) -> Seq<u8> {
        match *self {
            PeerAddr::V4(ip, _) => ip@,
            PeerAddr::V6(ip, _) => ip@,
        }
    }

    pub open spec fn spec_port(&self) -> u16 {
        match *self {
            PeerAddr::V4(_, port) => port,
            PeerAddr::V6(_, port) => port,
        }
    }

    /// The total order on addresses: every IPv4 address comes before every
    /// IPv6 address; within a family the IP octets decide, then the port.
    pub open spec fn spec_lt(&self, other: PeerAddr) -> bool {
        if self.spec_is_ipv4() != other.spec_is_ipv4() {
            self.spec_is_ipv4()
        } else if self.octets() != other.octets() {
            lex_lt(self.octets(), other.octets())
        } else {
            self.spec_port() < other.spec_port()
        }
    }

    #[verifier::when_used_as_spec(spec_is_ipv4)]
    pub fn is_ipv4(&self) -> (b: bool)
        ensures
            b == self.spec_is_ipv4(),
    {
        match self {
            PeerAddr::V4(..) => true,
            PeerAddr::V6(..) => false,
        }
    }

    #[verifier::when_used_as_spec(spec_port)]
    pub fn port(&self) -> (p: u16)
        ensures
            p == self.spec_port(),
    {
        match self {
            PeerAddr::V4(_, port) => *port,
            PeerAddr::V6(_, port) => *port,
        }
    }

    /// Whether two addresses are the same address.
    pub fn same(&self, other: &PeerAddr) -> (b: bool)
        ensures
            b == (*self == *other),
    {
        match (self, other) {
            (PeerAddr::V4(a, p), PeerAddr::V4(b, q)) => {
                let eq = bytes_equal(a.as_slice(), b.as_slice());
                proof {
                    if eq {
                        assert(a@ =~= b@);
                        assert(*a =~= *b);
                    }
                }
                eq && *p == *q
            },
            (PeerAddr::V6(a, p), PeerAddr::V6(b, q)) => {
                let eq = bytes_equal(a.as_slice(), b.as_slice());
                proof {
                    if eq {
                        assert(a@ =~= b@);
                        assert(*a =~= *b);
                    }
                }
                eq && *p == *q
            },
            _ => false,
        }
    }

    /// Whether this address comes strictly before `other` in the total order
    /// on addresses.
    pub fn precedes(&self, other: &PeerAddr) -> (b: bool)
        ensures
            b == self.spec_lt(*other),
    {
        match (self, other) {
            (PeerAddr::V4(a, p), PeerAddr::V4(b, q)) => {
                if bytes_equal(a.as_slice(), b.as_slice()) {
                    *p < *q
                } else {
                    bytes_less(a.as_slice(), b.as_slice())
                }
            },
            (PeerAddr::V6(a, p), PeerAddr::V6(b, q)) => {
                if bytes_equal(a.as_slice(), b.as_slice()) {
                    *p < *q
                } else {
                    bytes_less(a.as_slice(), b.as_slice())
                }
            },
            (PeerAddr::V4(..), PeerAddr::V6(..)) => true,
            (PeerAddr::V6(..), PeerAddr::V4(..)) => false,
        }
    }
}

/// Whether two byte strings hold the same bytes.
pub fn bytes_equal(a: &[u8], b: &[u8]) -> (r: bool)
    ensures
        r == (a@ == b@),
{
    if a.len() != b.len() {
        return false;
    }
    let mut i: usize = 0;
    while i < a.len()
        invariant
            i <= a.len(),
            a.len() == b.len(),
            a@.subrange(0, i as int) == b@.subrange(0, i as int),
        decreases a.len() - i,
    {
        if a[i] != b[i] {
            return false;
        }
        assert(a@.subrange(0, i + 1) =~= a@.subrange(0, i as int).push(a@[i as int]));
        assert(b@.subrange(0, i + 1) =~= b@.subrange(0, i as int).push(b@[i as int]));
        i += 1;
    }
    assert(a@ =~= a@.subrange(0, i as int));
    assert(b@ =~= b@.subrange(0, i as int));
    true
}

/// Whether `a` comes before `b` in lexicographic order.
pub fn bytes_less(a: &[u8], b: &[u8]) -> (r: bool)
    ensures
        r == lex_lt(a@, b@),
{
    let mut i: usize = 0;
    assert(a@.skip(0) =~= a@ && b@.skip(0) =~= b@);
    while i < a.len() && i < b.len()
        invariant
            i <= a.len(),
            i <= b.len(),
            lex_lt(a@, b@) == lex_lt(a@.skip(i as int), b@.skip(i as int)),
        decreases a.len() - i,
    {
        if a[i] != b[i] {
            return a[i] < b[i];
        }
        assert(a@.skip(i as int).drop_first() =~= a@.skip(i + 1));
        assert(b@.skip(i as int).drop_first() =~= b@.skip(i + 1));
        i += 1;
    }
    i == a.len() && i < b.len()
}

/// No byte string comes before itself.
pub proof fn lemma_lex_lt_irreflexive(a: Seq<u8>)
    ensures
        !lex_lt(a, a),
    decreases a.len(),
{
    if a.len() > 0 {
        lemma_lex_lt_irreflexive(a.drop_first());
    }
}

/// Of two different byte strings of one length, exactly one comes before the
/// other.
pub proof fn lemma_lex_lt_total(a: Seq<u8>, b: Seq<u8>)
    requires
        a.len() == b.len(),
        a != b,
    ensures
        lex_lt(a, b) != lex_lt(b, a),
    decreases a.len(),
{
    if a.len() == 0 {
        assert(a =~= b);
    } else if a[0] == b[0] {
        if a.drop_first() == b.drop_first() {
            assert(a =~= seq![a[0]] + a.drop_first());
            assert(b =~= seq![b[0]] + b.drop_first());
        }
        lemma_lex_lt_total(a.drop_first(), b.drop_first());
    }
}

/// The lexicographic order is transitive.
pub proof fn lemma_lex_lt_transitive(a: Seq<u8>, b: Seq<u8>, c: Seq<u8>)
    requires
        lex_lt(a, b),
        lex_lt(b, c),
    ensures
        lex_lt(a, c),
    decreases a.len(),
{
    if a.len() > 0 && b.len() > 0 && c.len() > 0 {
        if a[0] == b[0] && b[0] == c[0] {
            lemma_lex_lt_transitive(a.drop_first(), b.drop_first(), c.drop_first());
        }
    }
}

/// No address comes before itself.
pub proof fn lemma_order_irreflexive(a: PeerAddr)
    ensures
        !a.spec_lt(a),
{
}

/// Of two different addresses exactly one comes before the other.
pub proof fn lemma_order_total(a: PeerAddr, b: PeerAddr)
    requires
        a != b,
    ensures
        a.spec_lt(b) != b.spec_lt(a),
{
    if a.spec_is_ipv4() == b.spec_is_ipv4() {
        if a.octets() != b.octets() {
            lemma_lex_lt_total(a.octets(), b.octets());
        } else {
            match (a, b) {
                (PeerAddr::V4(x, p), PeerAddr::V4(y, q)) => {
                    assert(x =~= y);
                },
                (PeerAddr::V6(x, p), PeerAddr::V6(y, q)) => {
                    assert(x =~= y);
                },
                _ => {},
            }
        }
    }
}

/// The order on addresses is transitive.
pub proof fn lemma_order_transitive(a: PeerAddr, b: PeerAddr, c: PeerAddr)
    requires
        a.spec_lt(b),
        b.spec_lt(c),
    ensures
        a.spec_lt(c),
{
    if a.spec_is_ipv4() == b.spec_is_ipv4() && b.spec_is_ipv4() == c.spec_is_ipv4() {
        if a.octets() != b.octets() && b.octets() != c.octets() {
            lemma_lex_lt_transitive(a.octets(), b.octets(), c.octets());
            lemma_lex_lt_irreflexive(a.octets());
        }
    }
}

} // verus!
