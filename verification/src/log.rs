//! A log line: the time since the process started as `HH:MM:SS`, the
//! separator ` - `, the payload, and a newline.

use vstd::prelude::*;
use vstd::string::*;
use crate::text::{decimal, digit, push_bytes, push_decimal, push_str};

verus! {

/// A number below one hundred as two digits.
pub open spec fn two_digits(n: nat) -> Seq<u8> {
    seq![digit(n / 10), digit(n % 10)]
}

/// A duration in seconds as `HH:MM:SS`. The hours take as many digits as
/// they need, and at least two.
pub open spec fn spec_format_duration(seconds: nat) -> Seq<u8> {
    let hours = seconds / 3600;
    let padding = if hours < 10 {
        seq![digit(0)]
    } else {
        Seq::<u8>::empty()
    };
    padding + decimal(hours) + ":".spec_bytes() + two_digits(seconds % 3600 / 60)
        + ":".spec_bytes() + two_digits(seconds % 60)
}

/// The buffers one after the other.
pub open spec fn joined(bufs: Seq<&[u8]>) -> Seq<u8>
    decreases bufs.len(),
{
    if bufs.len() == 0 {
        Seq::empty()
    } else {
        joined(bufs.drop_last()) + bufs.last()@
    }
}

/// The line that is printed for a payload after `elapsed` seconds.
pub open spec fn spec_line(elapsed: nat, payload: Seq<u8>) -> Seq<u8> {
    spec_format_duration(elapsed) + " - ".spec_bytes() + payload + "\n".spec_bytes()
}

/// Appends a number below one hundred as two digits.
fn push_two_digits(buf: &mut Vec<u8>, n: u64)
    requires
        n < 100,
    ensures
        final(buf)@ == old(buf)@ + two_digits(n as nat),
{
    buf.push(48u8 + (n / 10) as u8);
    buf.push(48u8 + (n % 10) as u8);
    assert(buf@ =~= old(buf)@ + two_digits(n as nat));
}

/// Formats a duration of `seconds` as `HH:MM:SS`.
pub fn format_duration(seconds: u64) -> (v: Vec<u8>)
    ensures
        v@ == spec_format_duration(seconds as nat),
{
    let mut v: Vec<u8> = Vec::new();
    let hours = seconds / 3600;
    let minutes = seconds % 3600 / 60;
    let rest = seconds % 60;
    if hours < 10 {
        v.push(48u8);
    }
    push_decimal(&mut v, hours);
    push_str(&mut v, ":");
    push_two_digits(&mut v, minutes);
    push_str(&mut v, ":");
    push_two_digits(&mut v, rest);
    assert(v@ =~= spec_format_duration(seconds as nat));
    v
}

/// The line for the payload `bufs`, `elapsed` seconds after the start.
pub fn format_line(elapsed: u64, bufs: &[&[u8]]) -> (v: Vec<u8>)
    ensures
        v@ == spec_line(elapsed as nat, joined(bufs@)),
{
    let mut v = format_duration(elapsed);
    push_str(&mut v, " - ");
    let ghost head = v@;
    let mut i: usize = 0;
    while i < bufs.len()
        invariant
            i <= bufs.len(),
            v@ == head + joined(bufs@.take(i as int)),
        decreases bufs.len() - i,
    {
        push_bytes(&mut v, bufs[i]);
        proof {
            assert(bufs@.take(i + 1).drop_last() =~= bufs@.take(i as int));
            assert(v@ =~= head + joined(bufs@.take(i + 1)));
        }
        i += 1;
    }
    assert(bufs@.take(i as int) =~= bufs@);
    push_str(&mut v, "\n");
    assert(v@ =~= spec_line(elapsed as nat, joined(bufs@)));
    v
}

} // verus!
