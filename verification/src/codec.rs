//! The address codec: a membership list travels as a concatenation of
//! fixed-width socket-address records, with no length prefix and no separator.
//!
//! A record is a four-byte little-endian family tag (0 for IPv4, 1 for IPv6),
//! the octets of the IP address, and the port as two little-endian bytes: 10
//! bytes for an IPv4 address, 22 for an IPv6 address.

use vstd::prelude::*;
use vstd::slice::slice_subrange;
use crate::addr::PeerAddr;

verus! {

/// The length of the record of an IPv4 socket address.
pub const IPV4_SERIALIZED_LEN: usize = 10;

/// The length of the record of an IPv6 socket address.
pub const IPV6_SERIALIZED_LEN: usize = 22;

/// The tag of the IPv4 family.
pub const IPV4_TAG: u32 = 0;

/// The tag of the IPv6 family.
pub const IPV6_TAG: u32 = 1;

/// Why a list of records could not be decoded.
#[derive(Clone, Copy, Debug, PartialEq, Eq)]
pub enum CodecError {
    /// The next record announces a family whose record is longer than what is
    /// left of the buffer.
    MalformedAddressRecord,
}

/// What the decoder finds at the front of a buffer.
#[derive(Clone, Copy, Debug, PartialEq, Eq)]
pub enum Step {
    /// Nothing more to decode.
    Halt,
    /// A record of this address.
    Yield(PeerAddr),
    /// The start of a record that the buffer cuts short.
    Malformed,
}

/// The number of bytes that the record of `addr` takes.
pub open spec fn spec_record_len(addr: PeerAddr) -> nat {
    if addr.spec_is_ipv4() {
        10
    } else {
        22
    }
}

/// The tag of the family of `addr`.
pub open spec fn spec_tag(addr: PeerAddr) -> u32 {
    if addr.spec_is_ipv4() {
        IPV4_TAG
    } else {
        IPV6_TAG
    }
}

/// A tag as four bytes, least significant first.
pub open spec fn tag_bytes(tag: u32) -> Seq<u8> {
    seq![
        (tag % 256) as u8,
        (tag / 256 % 256) as u8,
        (tag / 65536 % 256) as u8,
        (tag / 16777216) as u8,
    ]
}

/// The tag that the first four bytes of `data` stand for.
pub open spec fn tag_of(data: Seq<u8>) -> u32 {
    (data[0] as int + 256 * (data[1] as int) + 65536 * (data[2] as int) + 16777216 * (
    data[3] as int)) as u32
}

/// The port as two bytes, least significant first.
pub open spec fn port_bytes(port: u16) -> Seq<u8> {
    seq![(port % 256) as u8, (port / 256) as u8]
}

/// The port that two little-endian bytes stand for.
pub open spec fn port_of(lo: u8, hi: u8) -> u16 {
    (lo as int + 256 * (hi as int)) as u16
}

/// The record of one address.
pub open spec fn spec_encode(addr: PeerAddr) -> Seq<u8> {
    tag_bytes(spec_tag(addr)) + addr.octets() + port_bytes(addr.spec_port())
}

/// The records of a list of addresses, one after the other.
pub open spec fn spec_encode_all(addrs: Seq<PeerAddr>) -> Seq<u8>
    decreases addrs.len(),
{
    if addrs.len() == 0 {
        Seq::empty()
    } else {
        spec_encode(addrs[0]) + spec_encode_all(addrs.drop_first())
    }
}

/// The address whose record stands at the front of `data`, if a whole record
/// of either family stands there. What follows the record is not looked at.
pub open spec fn spec_decode_record(data: Seq<u8>) -> Option<PeerAddr> {
    if data.len() >= 10 && tag_of(data) == IPV4_TAG {
        Some(PeerAddr::V4([data[4], data[5], data[6], data[7]], port_of(data[8], data[9])))
    } else if data.len() >= 22 && tag_of(data) == IPV6_TAG {
        Some(
            PeerAddr::V6(
                [
                    data[4],
                    data[5],
                    data[6],
                    data[7],
                    data[8],
                    data[9],
                    data[10],
                    data[11],
                    data[12],
                    data[13],
                    data[14],
                    data[15],
                    data[16],
                    data[17],
                    data[18],
                    data[19],
                ],
                port_of(data[20], data[21]),
            ),
        )
    } else {
        None
    }
}

/// What the decoder does at the front of `data`: it halts when fewer than 10
/// bytes remain or when the bytes are no record of either family; it yields
/// the address of a whole record; and it reports a record that announces
/// IPv6 but is cut short by the end of the buffer.
pub open spec fn spec_step(data: Seq<u8>) -> Step {
    if data.len() < 10 {
        Step::Halt
    } else {
        match spec_decode_record(data) {
            Some(addr) => Step::Yield(addr),
            None => if tag_of(data) == IPV6_TAG {
                Step::Malformed
            } else {
                Step::Halt
            },
        }
    }
}

/// The addresses that decoding `data` from the front yields, or the failure
/// that it runs into.
pub open spec fn spec_decode_all(data: Seq<u8>) -> Result<Seq<PeerAddr>, CodecError>
    decreases data.len(),
{
    match spec_step(data) {
        Step::Halt => Ok(Seq::empty()),
        Step::Malformed => Err(CodecError::MalformedAddressRecord),
        Step::Yield(addr) => match spec_decode_all(data.skip(spec_record_len(addr) as int)) {
            Ok(rest) => Ok(seq![addr] + rest),
            Err(e) => Err(e),
        },
    }
}

/// Calls `bincode::deserialize` for a tuple of a 32-bit tag, four octets and
/// a 16-bit port. With bincode's default configuration (fixed-width
/// little-endian integers, an array as its bytes, trailing bytes allowed) the
/// call succeeds exactly when at least ten bytes are there, and reads the tag
/// from the first four, the octets from the next four and the port from the
/// two after them.
#[verifier::external_body]
fn decode_ipv4_fields(data: &[u8]) -> (r: Option<(u32, [u8; 4], u16)>)
    ensures
        r == (if data@.len() >= 10 {
            Some((tag_of(data@), [data@[4], data@[5], data@[6], data@[7]], port_of(data@[8], data@[9])))
        } else {
            None
        }),
{
    bincode::deserialize::<(u32, [u8; 4], u16)>(data).ok()
}

/// Calls `bincode::deserialize` for a tuple of a 32-bit tag, sixteen octets
/// and a 16-bit port. With bincode's default configuration the call succeeds
/// exactly when at least twenty-two bytes are there, and reads the tag from
/// the first four, the octets from the next sixteen and the port from the two
/// after them.
#[verifier::external_body]
fn decode_ipv6_fields(data: &[u8]) -> (r: Option<(u32, [u8; 16], u16)>)
    ensures
        r == (if data@.len() >= 22 {
            Some(
                (
                    tag_of(data@),
                    [
                        data@[4],
                        data@[5],
                        data@[6],
                        data@[7],
                        data@[8],
                        data@[9],
                        data@[10],
                        data@[11],
                        data@[12],
                        data@[13],
                        data@[14],
                        data@[15],
                        data@[16],
                        data@[17],
                        data@[18],
                        data@[19],
                    ],
                    port_of(data@[20], data@[21]),
                ),
            )
        } else {
            None
        }),
{
    bincode::deserialize::<(u32, [u8; 16], u16)>(data).ok()
}

/// Calls `bincode::serialize` on a tuple of a 32-bit tag, four octets and a
/// 16-bit port. With bincode's default configuration the result is the tag as
/// four little-endian bytes, the octets, and the port as two little-endian
/// bytes. Writing into a vector without a size limit does not fail.
#[verifier::external_body]
fn encode_ipv4_fields(tag: u32, ip: &[u8; 4], port: u16) -> (v: Vec<u8>)
    ensures
        v@ == tag_bytes(tag) + ip@ + port_bytes(port),
{
    bincode::serialize(&(tag, *ip, port)).unwrap()
}

/// Calls `bincode::serialize` on a tuple of a 32-bit tag, sixteen octets and
/// a 16-bit port. With bincode's default configuration the result is the tag
/// as four little-endian bytes, the octets, and the port as two little-endian
/// bytes. Writing into a vector without a size limit does not fail.
#[verifier::external_body]
fn encode_ipv6_fields(tag: u32, ip: &[u8; 16], port: u16) -> (v: Vec<u8>)
    ensures
        v@ == tag_bytes(tag) + ip@ + port_bytes(port),
{
    bincode::serialize(&(tag, *ip, port)).unwrap()
}

impl PeerAddr {
    /// The number of bytes that the record of this address takes.
    pub fn record_len(&self) -> (n: usize)
        ensures
            n == spec_record_len(*self),
            n == IPV4_SERIALIZED_LEN || n == IPV6_SERIALIZED_LEN,
    {
        if self.is_ipv4() {
            IPV4_SERIALIZED_LEN
        } else {
            IPV6_SERIALIZED_LEN
        }
    }

    /// The record of this address.
    pub fn to_record(&self) -> (v: Vec<u8>)
        ensures
            v@ == spec_encode(*self),
            v@.len() == spec_record_len(*self),
    {
        match self {
            PeerAddr::V4(ip, port) => encode_ipv4_fields(IPV4_TAG, ip, *port),
            PeerAddr::V6(ip, port) => encode_ipv6_fields(IPV6_TAG, ip, *port),
        }
    }
}

/// A cursor over a buffer of records, which hands out one address per call.
pub struct SocketAddrDeserializer<'a> {
    data: &'a [u8],
}

impl<'a> SocketAddrDeserializer<'a> {
    /// The bytes that have not been decoded yet.
    pub closed spec fn remaining(&self) -> Seq<u8> {
        self.data@
    }

    /// Decodes the record at the front and moves past it.
    ///
    /// Returns `Ok(None)` when the list has ended: fewer than 10 bytes remain,
    /// or what remains is no record. Fails when the front announces an IPv6
    /// record and fewer than 22 bytes remain. In both cases the cursor stays
    /// where it is.
    pub fn next(&mut self) -> (r: Result<Option<PeerAddr>, CodecError>)
        ensures
            match spec_step(old(self).remaining()) {
                Step::Halt => r == Ok::<Option<PeerAddr>, CodecError>(None) && final(self).remaining()
                    == old(self).remaining(),
                Step::Malformed => r == Err::<Option<PeerAddr>, CodecError>(
                    CodecError::MalformedAddressRecord,
                ) && final(self).remaining() == old(self).remaining(),
                Step::Yield(addr) => r == Ok::<Option<PeerAddr>, CodecError>(Some(addr))
                    && spec_record_len(addr) <= old(self).remaining().len()
                    && final(self).remaining() == old(self).remaining().skip(
                    spec_record_len(addr) as int,
                ),
            },
    {
        let data = self.data;
        if data.len() < IPV4_SERIALIZED_LEN {
            return Ok(None);
        }
        let found = match decode_ipv4_fields(data) {
            Some((tag, ip, port)) => {
                if tag == IPV4_TAG {
                    Some(PeerAddr::V4(ip, port))
                } else if tag == IPV6_TAG {
                    match decode_ipv6_fields(data) {
                        Some((_, ip, port)) => Some(PeerAddr::V6(ip, port)),
                        None => {
                            return Err(CodecError::MalformedAddressRecord);
                        },
                    }
                } else {
                    None
                }
            },
            None => None,
        };
        match found {
            Some(addr) => {
                let n = addr.record_len();
                self.data = slice_subrange(data, n, data.len());
                assert(self.data@ =~= data@.skip(n as int));
                Ok(Some(addr))
            },
            None => Ok(None),
        }
    }

    /// Decodes every record that is left.
    pub fn collect(&mut self) -> (r: Result<Vec<PeerAddr>, CodecError>)
        ensures
            match spec_decode_all(old(self).remaining()) {
                Ok(addrs) => r is Ok && r->Ok_0@ == addrs,
                Err(e) => r == Err::<Vec<PeerAddr>, CodecError>(e),
            },
    {
        let mut out: Vec<PeerAddr> = Vec::new();
        let ghost start = self.remaining();
        loop
            invariant
                start == old(self).remaining(),
                match spec_decode_all(self.remaining()) {
                    Ok(rest) => spec_decode_all(start) == Ok::<Seq<PeerAddr>, CodecError>(
                        out@ + rest,
                    ),
                    Err(e) => spec_decode_all(start) == Err::<Seq<PeerAddr>, CodecError>(e),
                },
            ensures
                match spec_decode_all(start) {
                    Ok(addrs) => out@ == addrs,
                    Err(_) => false,
                },
            decreases self.remaining().len(),
        {
            let ghost before = self.remaining();
            match self.next() {
                Err(e) => {
                    assert(spec_decode_all(before) == Err::<Seq<PeerAddr>, CodecError>(e));
                    return Err(e);
                },
                Ok(None) => {
                    assert(out@ + Seq::<PeerAddr>::empty() =~= out@);
                    break ;
                },
                Ok(Some(addr)) => {
                    proof {
                        let rest = spec_decode_all(self.remaining());
                        if rest is Ok {
                            assert(out@ + (seq![addr] + rest->Ok_0) =~= out@.push(addr)
                                + rest->Ok_0);
                        }
                    }
                    out.push(addr);
                },
            }
        }
        Ok(out)
    }
}

/// A cursor at the front of `data`.
pub fn deserialize_addresses(data: &[u8]) -> (d: SocketAddrDeserializer<'_>)
    ensures
        d.remaining() == data@,
{
    SocketAddrDeserializer { data }
}

/// Encoding a list with one more address at its end appends the record of
/// that address.
pub proof fn lemma_encode_all_push(addrs: Seq<PeerAddr>, addr: PeerAddr)
    ensures
        spec_encode_all(addrs.push(addr)) == spec_encode_all(addrs) + spec_encode(addr),
    decreases addrs.len(),
{
    if addrs.len() == 0 {
        assert(addrs.push(addr).drop_first() =~= Seq::<PeerAddr>::empty());
        assert(spec_encode_all(addrs.push(addr).drop_first()) =~= Seq::<u8>::empty());
        assert(spec_encode_all(addrs.push(addr)) =~= spec_encode(addr));
        assert(spec_encode_all(addrs) + spec_encode(addr) =~= spec_encode(addr));
    } else {
        assert(addrs.push(addr).drop_first() =~= addrs.drop_first().push(addr));
        lemma_encode_all_push(addrs.drop_first(), addr);
        assert(spec_encode(addrs[0]) + (spec_encode_all(addrs.drop_first()) + spec_encode(addr))
            =~= (spec_encode(addrs[0]) + spec_encode_all(addrs.drop_first())) + spec_encode(
            addr,
        ));
    }
}

/// The records of `addrs`, one after the other.
pub fn serialize_addresses(addrs: &[PeerAddr]) -> (v: Vec<u8>)
    ensures
        v@ == spec_encode_all(addrs@),
{
    let mut v: Vec<u8> = Vec::new();
    let mut i: usize = 0;
    while i < addrs.len()
        invariant
            i <= addrs.len(),
            v@ == spec_encode_all(addrs@.take(i as int)),
        decreases addrs.len() - i,
    {
        let mut record = addrs[i].to_record();
        proof {
            lemma_encode_all_push(addrs@.take(i as int), addrs@[i as int]);
            assert(addrs@.take(i as int).push(addrs@[i as int]) =~= addrs@.take(i + 1));
        }
        v.append(&mut record);
        i += 1;
    }
    assert(addrs@.take(i as int) =~= addrs@);
    v
}

/// A record is as long as its family says.
pub proof fn lemma_record_len(addr: PeerAddr)
    ensures
        spec_encode(addr).len() == spec_record_len(addr),
{
}

/// The decoder reads back the address of a record, whatever follows it.
pub proof fn lemma_decode_encoded(addr: PeerAddr, rest: Seq<u8>)
    ensures
        spec_decode_record(spec_encode(addr) + rest) == Some(addr),
        spec_step(spec_encode(addr) + rest) == Step::Yield(addr),
        (spec_encode(addr) + rest).skip(spec_record_len(addr) as int) == rest,
{
    let data = spec_encode(addr) + rest;
    let port = addr.spec_port();
    assert(port_of((port % 256) as u8, (port / 256) as u8) == port);
    assert(tag_of(data) == spec_tag(addr));
    assert(data.skip(spec_record_len(addr) as int) =~= rest);
    let found = spec_decode_record(data);
    match addr {
        PeerAddr::V4(ip, _) => {
            assert(found->Some_0->V4_0 =~= ip);
        },
        PeerAddr::V6(ip, _) => {
            assert(found->Some_0->V6_0 =~= ip);
        },
    }
}

/// Round trip: decoding the records of a list of addresses gives the list
/// back, in the same order.
pub proof fn lemma_round_trip(addrs: Seq<PeerAddr>)
    ensures
        spec_decode_all(spec_encode_all(addrs)) == Ok::<Seq<PeerAddr>, CodecError>(addrs),
    decreases addrs.len(),
{
    if addrs.len() == 0 {
        assert(addrs =~= Seq::<PeerAddr>::empty());
    } else {
        let rest = spec_encode_all(addrs.drop_first());
        let data = spec_encode_all(addrs);
        lemma_decode_encoded(addrs[0], rest);
        lemma_round_trip(addrs.drop_first());
        assert(data == spec_encode(addrs[0]) + rest);
        assert(spec_step(data) == Step::Yield(addrs[0]));
        assert(data.skip(spec_record_len(addrs[0]) as int) == rest);
        assert(seq![addrs[0]] + addrs.drop_first() =~= addrs);
    }
}

} // verus!
