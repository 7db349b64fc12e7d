//! Text as bytes: what the node prints is assembled from byte strings, and an
//! address is shown as `ip:port`.

use vstd::prelude::*;
use vstd::string::*;
use crate::addr::PeerAddr;

verus! {

/// Appends the bytes of `s` to `buf`.
pub fn push_bytes(buf: &mut Vec<u8>, s: &[u8])
    ensures
        final(buf)@ == old(buf)@ + s@,
{
    let mut i: usize = 0;
    while i < s.len()
        invariant
            i <= s.len(),
            buf@ == old(buf)@ + s@.take(i as int),
        decreases s.len() - i,
    {
        buf.push(s[i]);
        assert(s@.take(i + 1) =~= s@.take(i as int).push(s@[i as int]));
        i += 1;
    }
    assert(s@.take(i as int) =~= s@);
}

/// Appends the UTF-8 bytes of `s` to `buf`.
pub fn push_str(buf: &mut Vec<u8>, s: &str)
    ensures
        final(buf)@ == old(buf)@ + s.spec_bytes(),
{
    push_bytes(buf, s.as_bytes());
}

/// The ASCII digit for a number below ten.
pub open spec fn digit(d: nat) -> u8 {
    (48 + d) as u8
}

/// The decimal digits of `n`, most significant first, without leading zeros.
pub open spec fn decimal(n: nat) -> Seq<u8>
    decreases n,
{
    if n < 10 {
        seq![digit(n)]
    } else {
        decimal(n / 10).push(digit(n % 10))
    }
}

/// Appends the decimal digits of `n` to `buf`.
pub fn push_decimal(buf: &mut Vec<u8>, n: u64)
    ensures
        final(buf)@ == old(buf)@ + decimal(n as nat),
    decreases n,
{
    if n >= 10 {
        push_decimal(buf, n / 10);
    }
    buf.push(48u8 + (n % 10) as u8);
    assert(buf@ =~= old(buf)@ + decimal(n as nat));
}

/// The dotted-decimal text of four octets.
pub open spec fn ipv4_text(ip: Seq<u8>) -> Seq<u8> {
    decimal(ip[0] as nat) + ".".spec_bytes() + decimal(ip[1] as nat) + ".".spec_bytes() + decimal(
        ip[2] as nat,
    ) + ".".spec_bytes() + decimal(ip[3] as nat)
}

/// The ASCII digit, in lower case, for a number below sixteen.
pub open spec fn hex_digit(d: nat) -> u8 {
    if d < 10 {
        (48 + d) as u8
    } else {
        (87 + d) as u8
    }
}

/// The hexadecimal digits of `n`, in lower case, most significant first,
/// without leading zeros.
pub open spec fn hex(n: nat) -> Seq<u8>
    decreases n,
{
    if n < 16 {
        seq![hex_digit(n)]
    } else {
        hex(n / 16).push(hex_digit(n % 16))
    }
}

/// Appends the hexadecimal digits of `n` to `buf`.
pub fn push_hex(buf: &mut Vec<u8>, n: u16)
    ensures
        final(buf)@ == old(buf)@ + hex(n as nat),
    decreases n,
{
    if n >= 16 {
        push_hex(buf, n / 16);
    }
    let d = (n % 16) as u8;
    if d < 10 {
        buf.push(48u8 + d);
    } else {
        buf.push(87u8 + d);
    }
    assert(buf@ =~= old(buf)@ + hex(n as nat));
}

/// The `i`-th of the eight 16-bit groups of sixteen octets.
pub open spec fn group(ip: Seq<u8>, i: int) -> nat {
    (ip[2 * i] as nat) * 256 + (ip[2 * i + 1] as nat)
}

/// The groups from `from` up to `to`, in hexadecimal, separated by colons.
pub open spec fn hex_groups(ip: Seq<u8>, from: int, to: int) -> Seq<u8>
    decreases to - from,
{
    if from >= to {
        Seq::empty()
    } else if from + 1 == to {
        hex(group(ip, from))
    } else {
        hex_groups(ip, from, to - 1) + ":".spec_bytes() + hex(group(ip, to - 1))
    }
}

/// How many groups in a row are zero, starting with the `i`-th.
pub open spec fn zero_run(ip: Seq<u8>, i: int) -> nat
    decreases 8 - i,
{
    if i < 0 || i >= 8 || group(ip, i) != 0 {
        0
    } else {
        1 + zero_run(ip, i + 1)
    }
}

/// The length of the longest run of zero groups that starts before the
/// `n`-th group.
pub open spec fn longest_run(ip: Seq<u8>, n: int) -> nat
    decreases n,
{
    if n <= 0 {
        0
    } else if zero_run(ip, n - 1) > longest_run(ip, n - 1) {
        zero_run(ip, n - 1)
    } else {
        longest_run(ip, n - 1)
    }
}

/// The first group at or after the `i`-th at which a longest run of zero
/// groups starts.
pub open spec fn longest_run_start(ip: Seq<u8>, i: int) -> int
    decreases 8 - i,
{
    if i < 0 || i >= 8 {
        8
    } else if zero_run(ip, i) == longest_run(ip, 8) {
        i
    } else {
        longest_run_start(ip, i + 1)
    }
}

/// Whether the sixteen octets are an IPv4 address mapped into IPv6: ten zero
/// octets, two octets of all ones, and the four octets of the address.
pub open spec fn is_ipv4_mapped(ip: Seq<u8>) -> bool {
    &&& forall|i: int| 0 <= i < 10 ==> ip[i] == 0
    &&& ip[10] == 255
    &&& ip[11] == 255
}

/// The canonical text of the IPv6 address with the given sixteen octets: the
/// eight groups in lower-case hexadecimal without leading zeros, separated by
/// colons, with the leftmost longest run of two or more zero groups
/// shortened to `::`. An IPv4 address mapped into IPv6 is written as
/// `::ffff:` and the dotted-decimal text of the address.
pub open spec fn ipv6_text(ip: Seq<u8>) -> Seq<u8> {
    if is_ipv4_mapped(ip) {
        "::ffff:".spec_bytes() + ipv4_text(ip.subrange(12, 16))
    } else if longest_run(ip, 8) > 1 {
        let start = longest_run_start(ip, 0);
        hex_groups(ip, 0, start) + "::".spec_bytes() + hex_groups(
            ip,
            start + longest_run(ip, 8),
            8,
        )
    } else {
        hex_groups(ip, 0, 8)
    }
}

/// The `i`-th group of the address.
fn group_at(ip: &[u8; 16], i: usize) -> (g: u16)
    requires
        i < 8,
    ensures
        g == group(ip@, i as int),
{
    (ip[2 * i] as u16) * 256 + (ip[2 * i + 1] as u16)
}

/// How many groups in a row are zero, starting with the `i`-th.
fn zero_run_at(ip: &[u8; 16], i: usize) -> (n: usize)
    requires
        i < 8,
    ensures
        n == zero_run(ip@, i as int),
        i + n <= 8,
{
    let mut k: usize = i;
    while k < 8 && group_at(ip, k) == 0
        invariant
            i <= k <= 8,
            zero_run(ip@, i as int) == (k - i) + zero_run(ip@, k as int),
        decreases 8 - k,
    {
        k += 1;
    }
    k - i
}

/// Appends the groups from `from` up to `to`, separated by colons.
fn push_hex_groups(buf: &mut Vec<u8>, ip: &[u8; 16], from: usize, to: usize)
    requires
        from <= to <= 8,
    ensures
        final(buf)@ == old(buf)@ + hex_groups(ip@, from as int, to as int),
{
    let mut i: usize = from;
    assert(buf@ =~= old(buf)@ + hex_groups(ip@, from as int, i as int));
    while i < to
        invariant
            from <= i <= to <= 8,
            buf@ == old(buf)@ + hex_groups(ip@, from as int, i as int),
        decreases to - i,
    {
        let ghost before = buf@;
        if i != from {
            push_str(buf, ":");
        }
        push_hex(buf, group_at(ip, i));
        proof {
            if i == from {
                assert(buf@ =~= old(buf)@ + hex_groups(ip@, from as int, i + 1));
            } else {
                assert(buf@ =~= old(buf)@ + (hex_groups(ip@, from as int, i as int)
                    + ":".spec_bytes() + hex(group(ip@, i as int))));
            }
        }
        i += 1;
    }
}

/// Whether the address is an IPv4 address mapped into IPv6.
fn ipv4_mapped(ip: &[u8; 16]) -> (b: bool)
    ensures
        b == is_ipv4_mapped(ip@),
{
    let mut i: usize = 0;
    while i < 10
        invariant
            i <= 10,
            forall|j: int| 0 <= j < i ==> ip@[j] == 0,
        decreases 10 - i,
    {
        if ip[i] != 0 {
            return false;
        }
        i += 1;
    }
    ip[10] == 255 && ip[11] == 255
}

/// The first start of a longest run is the first group whose run is as long
/// as the longest.
proof fn lemma_longest_run_start(ip: Seq<u8>, i: int, best: int)
    requires
        0 <= i <= best < 8,
        zero_run(ip, best) == longest_run(ip, 8),
        forall|t: int| i <= t < best ==> zero_run(ip, t) != longest_run(ip, 8),
    ensures
        longest_run_start(ip, i) == best,
    decreases best - i,
{
    if i < best {
        lemma_longest_run_start(ip, i + 1, best);
    }
}

/// Appends the canonical text of the IPv6 address to `buf`.
pub fn push_ipv6(buf: &mut Vec<u8>, ip: &[u8; 16])
    ensures
        final(buf)@ == old(buf)@ + ipv6_text(ip@),
{
    if ipv4_mapped(ip) {
        push_str(buf, "::ffff:");
        push_decimal(buf, ip[12] as u64);
        push_str(buf, ".");
        push_decimal(buf, ip[13] as u64);
        push_str(buf, ".");
        push_decimal(buf, ip[14] as u64);
        push_str(buf, ".");
        push_decimal(buf, ip[15] as u64);
        proof {
            let tail = ip@.subrange(12, 16);
            assert(tail[0] == ip@[12] && tail[1] == ip@[13] && tail[2] == ip@[14] && tail[3]
                == ip@[15]);
            assert(buf@ =~= old(buf)@ + ipv6_text(ip@));
        }
        return ;
    }
    let mut best: usize = 0;
    let mut best_len: usize = 0;
    let mut i: usize = 0;
    while i < 8
        invariant
            i <= 8,
            best_len == longest_run(ip@, i as int),
            best_len > 0 ==> best < i && zero_run(ip@, best as int) == best_len,
            forall|t: int| 0 <= t < i && t < best ==> zero_run(ip@, t) < best_len,
            best_len == 0 ==> best == 0,
            best + best_len <= 8,
        decreases 8 - i,
    {
        let n = zero_run_at(ip, i);
        if n > best_len {
            proof {
                assert forall|t: int| 0 <= t < i + 1 && t < i implies zero_run(ip@, t) < n by {
                    lemma_run_bounded(ip@, i as int, t);
                }
            }
            best = i;
            best_len = n;
        }
        i += 1;
    }
    if best_len > 1 {
        proof {
            lemma_longest_run_start(ip@, 0, best as int);
        }
        push_hex_groups(buf, ip, 0, best);
        push_str(buf, "::");
        push_hex_groups(buf, ip, best + best_len, 8);
    } else {
        push_hex_groups(buf, ip, 0, 8);
    }
    assert(buf@ =~= old(buf)@ + ipv6_text(ip@));
}

/// No run that starts before the `n`-th group is longer than the longest of
/// them.
proof fn lemma_run_bounded(ip: Seq<u8>, n: int, t: int)
    requires
        0 <= t < n,
    ensures
        zero_run(ip, t) <= longest_run(ip, n),
    decreases n,
{
    if t < n - 1 {
        lemma_run_bounded(ip, n - 1, t);
    }
}

impl PeerAddr {
    /// How the address is shown: `a.b.c.d:port` for IPv4 and `[ip]:port` for
    /// IPv6.
    pub open spec fn text(&self) -> Seq<u8> {
        match *self {
            PeerAddr::V4(ip, port) => ipv4_text(ip@) + ":".spec_bytes() + decimal(port as nat),
            PeerAddr::V6(ip, port) => "[".spec_bytes() + ipv6_text(ip@) + "]:".spec_bytes()
                + decimal(port as nat),
        }
    }

    /// Appends the text of the address to `buf`.
    pub fn write_text(&self, buf: &mut Vec<u8>)
        ensures
            final(buf)@ == old(buf)@ + self.text(),
    {
        match self {
            PeerAddr::V4(ip, port) => {
                push_decimal(buf, ip[0] as u64);
                push_str(buf, ".");
                push_decimal(buf, ip[1] as u64);
                push_str(buf, ".");
                push_decimal(buf, ip[2] as u64);
                push_str(buf, ".");
                push_decimal(buf, ip[3] as u64);
                push_str(buf, ":");
                push_decimal(buf, *port as u64);
            },
            PeerAddr::V6(ip, port) => {
                push_str(buf, "[");
                push_ipv6(buf, ip);
                push_str(buf, "]:");
                push_decimal(buf, *port as u64);
            },
        }
        assert(buf@ =~= old(buf)@ + self.text());
    }

    /// The text of the address.
    pub fn to_text(&self) -> (v: Vec<u8>)
        ensures
            v@ == self.text(),
    {
        let mut v: Vec<u8> = Vec::new();
        self.write_text(&mut v);
        v
    }
}

} // verus!
