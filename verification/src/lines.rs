//! The payloads of the lines that the node logs, one function for each.

use vstd::prelude::*;
use vstd::string::*;
use crate::addr::PeerAddr;
use crate::error::{AppError, CloseReason};
use crate::table::{finalized_of, PeerTable};
use crate::text::{push_bytes, push_str};

verus! {

/// An address between double quotes.
pub open spec fn quoted(addr: PeerAddr) -> Seq<u8> {
    "\"".spec_bytes() + addr.text() + "\"".spec_bytes()
}

/// The addresses, each between double quotes, separated by a comma and a
/// space.
pub open spec fn quoted_list(addrs: Seq<PeerAddr>) -> Seq<u8>
    decreases addrs.len(),
{
    if addrs.len() == 0 {
        Seq::empty()
    } else if addrs.len() == 1 {
        quoted(addrs[0])
    } else {
        quoted_list(addrs.drop_last()) + ", ".spec_bytes() + quoted(addrs.last())
    }
}

/// Formats the addresses as a quoted, comma-separated list.
pub fn format_addresses(addrs: &[PeerAddr]) -> (v: Vec<u8>)
    ensures
        v@ == quoted_list(addrs@),
{
    let mut v: Vec<u8> = Vec::new();
    let mut i: usize = 0;
    while i < addrs.len()
        invariant
            i <= addrs.len(),
            v@ == quoted_list(addrs@.take(i as int)),
        decreases addrs.len() - i,
    {
        let ghost before = v@;
        if i != 0 {
            push_str(&mut v, ", ");
        }
        push_str(&mut v, "\"");
        addrs[i].write_text(&mut v);
        push_str(&mut v, "\"");
        proof {
            let next = addrs@.take(i + 1);
            assert(next.drop_last() =~= addrs@.take(i as int));
            assert(next.last() == addrs@[i as int]);
            if i == 0 {
                assert(v@ =~= quoted(addrs@[0]));
            } else {
                assert(v@ =~= before + ", ".spec_bytes() + quoted(addrs@[i as int]));
            }
        }
        i += 1;
    }
    assert(addrs@.take(i as int) =~= addrs@);
    v
}

/// Formats the finalized peers of the table as a quoted, comma-separated
/// list, in the order of the table.
pub fn format_peers(peers: &PeerTable) -> (v: Vec<u8>)
    ensures
        v@ == quoted_list(finalized_of(peers@)),
{
    let finalized = peers.snapshot_finalized();
    format_addresses(finalized.as_slice())
}

pub open spec fn spec_my_address(addr: PeerAddr) -> Seq<u8> {
    "My address is ".spec_bytes() + quoted(addr)
}

pub open spec fn spec_accepted(remote: PeerAddr) -> Seq<u8> {
    "Accepted a connection from ".spec_bytes() + remote.text()
}

pub open spec fn spec_connected(peers: Seq<u8>) -> Seq<u8> {
    "Connected to the peers at [".spec_bytes() + peers + "]".spec_bytes()
}

pub open spec fn spec_sending(message: Seq<u8>, peers: Seq<u8>) -> Seq<u8> {
    "Sending message [".spec_bytes() + message + "] to [".spec_bytes() + peers + "]".spec_bytes()
}

pub open spec fn spec_received(message: Seq<u8>, remote: PeerAddr) -> Seq<u8> {
    "Received message [".spec_bytes() + message + "] from ".spec_bytes() + remote.text()
}

pub open spec fn spec_closed(remote: PeerAddr, reason: Seq<u8>) -> Seq<u8> {
    "Closed connection to ".spec_bytes() + remote.text() + ", reason: ".spec_bytes() + reason
}

pub open spec fn spec_reconnected(remote: PeerAddr) -> Seq<u8> {
    "Reconnected to ".spec_bytes() + remote.text()
}

pub open spec fn spec_connect_failed(remote: PeerAddr, error: Seq<u8>) -> Seq<u8> {
    "Failed to connect to ".spec_bytes() + remote.text() + ", error: ".spec_bytes() + error
}

pub open spec fn spec_accept_failed(remote: PeerAddr, error: Seq<u8>) -> Seq<u8> {
    "Failed to accept a connection from ".spec_bytes() + remote.text() + ", error: ".spec_bytes()
        + error
}

pub open spec fn spec_receive_failed(remote: PeerAddr, error: Seq<u8>) -> Seq<u8> {
    "Failed to receive from ".spec_bytes() + remote.text() + ", error: ".spec_bytes() + error
}

pub open spec fn spec_shutting_down() -> Seq<u8> {
    "Shutting down".spec_bytes()
}

/// `My address is "<ip:port>"`
pub fn my_address(addr: &PeerAddr) -> (v: Vec<u8>)
    ensures
        v@ == spec_my_address(*addr),
{
    let mut v: Vec<u8> = Vec::new();
    push_str(&mut v, "My address is ");
    push_str(&mut v, "\"");
    addr.write_text(&mut v);
    push_str(&mut v, "\"");
    assert(v@ =~= spec_my_address(*addr));
    v
}

/// `Accepted a connection from <ip:port>`
pub fn accepted(remote: &PeerAddr) -> (v: Vec<u8>)
    ensures
        v@ == spec_accepted(*remote),
{
    let mut v: Vec<u8> = Vec::new();
    push_str(&mut v, "Accepted a connection from ");
    remote.write_text(&mut v);
    assert(v@ =~= spec_accepted(*remote));
    v
}

/// `Connected to the peers at [<peers>]`
pub fn connected(peers: &[u8]) -> (v: Vec<u8>)
    ensures
        v@ == spec_connected(peers@),
{
    let mut v: Vec<u8> = Vec::new();
    push_str(&mut v, "Connected to the peers at [");
    push_bytes(&mut v, peers);
    push_str(&mut v, "]");
    assert(v@ =~= spec_connected(peers@));
    v
}

/// `Sending message [<message>] to [<peers>]`
pub fn sending(message: &[u8], peers: &[u8]) -> (v: Vec<u8>)
    ensures
        v@ == spec_sending(message@, peers@),
{
    let mut v: Vec<u8> = Vec::new();
    push_str(&mut v, "Sending message [");
    push_bytes(&mut v, message);
    push_str(&mut v, "] to [");
    push_bytes(&mut v, peers);
    push_str(&mut v, "]");
    assert(v@ =~= spec_sending(message@, peers@));
    v
}

/// `Received message [<message>] from <ip:port>`
pub fn received(message: &[u8], remote: &PeerAddr) -> (v: Vec<u8>)
    ensures
        v@ == spec_received(message@, *remote),
{
    let mut v: Vec<u8> = Vec::new();
    push_str(&mut v, "Received message [");
    push_bytes(&mut v, message);
    push_str(&mut v, "] from ");
    remote.write_text(&mut v);
    assert(v@ =~= spec_received(message@, *remote));
    v
}

/// `Closed connection to <ip:port>, reason: <reason>`
pub fn closed(remote: &PeerAddr, reason: &CloseReason) -> (v: Vec<u8>)
    ensures
        v@ == spec_closed(*remote, reason.text@),
{
    let mut v: Vec<u8> = Vec::new();
    push_str(&mut v, "Closed connection to ");
    remote.write_text(&mut v);
    push_str(&mut v, ", reason: ");
    push_bytes(&mut v, reason.text.as_slice());
    assert(v@ =~= spec_closed(*remote, reason.text@));
    v
}

/// `Reconnected to <ip:port>`
pub fn reconnected(remote: &PeerAddr) -> (v: Vec<u8>)
    ensures
        v@ == spec_reconnected(*remote),
{
    let mut v: Vec<u8> = Vec::new();
    push_str(&mut v, "Reconnected to ");
    remote.write_text(&mut v);
    assert(v@ =~= spec_reconnected(*remote));
    v
}

/// `Failed to connect to <ip:port>, error: <error>`
pub fn connect_failed(remote: &PeerAddr, error: &AppError) -> (v: Vec<u8>)
    ensures
        v@ == spec_connect_failed(*remote, error.text()),
{
    let mut v: Vec<u8> = Vec::new();
    push_str(&mut v, "Failed to connect to ");
    remote.write_text(&mut v);
    push_str(&mut v, ", error: ");
    error.write_text(&mut v);
    assert(v@ =~= spec_connect_failed(*remote, error.text()));
    v
}

/// `Failed to accept a connection from <ip:port>, error: <error>`
pub fn accept_failed(remote: &PeerAddr, error: &AppError) -> (v: Vec<u8>)
    ensures
        v@ == spec_accept_failed(*remote, error.text()),
{
    let mut v: Vec<u8> = Vec::new();
    push_str(&mut v, "Failed to accept a connection from ");
    remote.write_text(&mut v);
    push_str(&mut v, ", error: ");
    error.write_text(&mut v);
    assert(v@ =~= spec_accept_failed(*remote, error.text()));
    v
}

/// `Failed to receive from <ip:port>, error: <error>`
pub fn receive_failed(remote: &PeerAddr, error: &AppError) -> (v: Vec<u8>)
    ensures
        v@ == spec_receive_failed(*remote, error.text()),
{
    let mut v: Vec<u8> = Vec::new();
    push_str(&mut v, "Failed to receive from ");
    remote.write_text(&mut v);
    push_str(&mut v, ", error: ");
    error.write_text(&mut v);
    assert(v@ =~= spec_receive_failed(*remote, error.text()));
    v
}

/// `Shutting down`
pub fn shutting_down() -> (v: Vec<u8>)
    ensures
        v@ == spec_shutting_down(),
{
    let mut v: Vec<u8> = Vec::new();
    push_str(&mut v, "Shutting down");
    v
}

} // verus!
