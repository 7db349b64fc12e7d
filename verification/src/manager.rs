//! The connection manager's decisions. Each function here is one step that
//! the node takes on the peer table when the transport reports something: it
//! changes the table and says what to do next. Waiting for the transport, and
//! doing what a step asks for, is left to the caller.

use vstd::prelude::*;
use crate::addr::{lemma_order_total, PeerAddr};
use crate::codec::{deserialize_addresses, serialize_addresses, spec_decode_all, spec_encode_all};
use crate::error::{
    benign_error, benign_reason, is_already_open_or_locally_closed_error,
    is_already_open_or_locally_closed_reason, AppError, CloseKind, CloseReason,
};
use crate::lines::{
    accept_failed, accepted, closed, connect_failed, connected, format_peers, quoted_list,
    receive_failed, reconnected, spec_accept_failed, spec_accepted, spec_closed,
    spec_connect_failed, spec_connected, spec_receive_failed, spec_reconnected,
};
use crate::table::{
    addrs_of, distinct, finalized_of, holds, holds_finalized, kept, lemma_finalized_listed,
    lemma_put, place, put, InsertOutcome, PeerEntry, PeerTable, PromoteOutcome,
};

verus! {

/// How many bytes of a peer list a dialler reads at most.
pub const PEER_LIST_LIMIT: usize = 10000;

/// How many bytes of a message a receiver reads at most.
pub const MESSAGE_LIMIT: usize = 1024;

/// How many messages the broadcast bus holds for a slow sender.
pub const BROADCAST_CAPACITY: usize = 16;

/// What to do with an inbound connection whose handshake has completed.
#[derive(Debug, PartialEq, Eq)]
pub enum InboundDecision {
    /// A finalized connection to the peer is live: close this one with the
    /// code and the reason for a duplicate, and start nothing for it.
    RejectDuplicate,
    /// Open one stream to the peer, write these bytes, and finish it.
    Advertise(Vec<u8>),
}

/// How accepting an inbound connection ended.
#[derive(Debug, PartialEq, Eq)]
pub enum AcceptOutcome {
    /// The peer list was sent and the connection handed on.
    Accepted,
    /// The connection was a duplicate and was closed.
    Duplicate,
    /// The handshake or the sending of the peer list failed.
    Failed(AppError),
}

/// Admits an inbound connection from `remote` whose handshake has completed.
///
/// The address gets an entry if it has none. Where its entry was finalized
/// already, the connection is a duplicate and the table stays as it was.
/// Otherwise the peer is to be sent the records of every address known now,
/// finalized or not, in the order of the table; once they are sent, the
/// caller marks the entry as finalized with `PeerTable::promote`.
pub fn admit_inbound(peers: &mut PeerTable, remote: PeerAddr) -> (r: InboundDecision)
    ensures
        final(peers).wf(),
        final(peers)@ == (if holds(old(peers)@, remote) {
            old(peers)@
        } else {
            old(peers)@.push(PeerEntry { addr: remote, finalized: false })
        }),
        match r {
            InboundDecision::RejectDuplicate => holds_finalized(old(peers)@, remote),
            InboundDecision::Advertise(bytes) => !holds_finalized(old(peers)@, remote) && bytes@
                == spec_encode_all(addrs_of(final(peers)@)),
        },
{
    match peers.insert_if_absent(remote) {
        InsertOutcome::AlreadyFinalized => InboundDecision::RejectDuplicate,
        _ => {
            let known = peers.known();
            InboundDecision::Advertise(serialize_addresses(known.as_slice()))
        },
    }
}

/// What to log when accepting an inbound connection from `remote` has ended:
/// an accepted connection is announced, a failure is reported unless it is
/// benign, and a duplicate is passed over in silence.
pub fn accept_report(remote: &PeerAddr, outcome: &AcceptOutcome) -> (line: Option<Vec<u8>>)
    ensures
        match *outcome {
            AcceptOutcome::Accepted => line is Some && line->Some_0@ == spec_accepted(*remote),
            AcceptOutcome::Duplicate => line is None,
            AcceptOutcome::Failed(e) => if benign_error(e) {
                line is None
            } else {
                line is Some && line->Some_0@ == spec_accept_failed(*remote, e.text())
            },
        },
{
    match outcome {
        AcceptOutcome::Accepted => Some(accepted(remote)),
        AcceptOutcome::Duplicate => None,
        AcceptOutcome::Failed(e) => {
            if is_already_open_or_locally_closed_error(e) {
                None
            } else {
                Some(accept_failed(remote, e))
            }
        },
    }
}

/// The addresses whose dial failed while one tree of dials ran: the first
/// connect with everything it discovers, or one reconnect. None of them is
/// dialled again by that tree.
pub struct FailedPeers {
    addrs: Vec<PeerAddr>,
}

impl FailedPeers {
    /// The addresses in the set.
    pub closed spec fn view(&self) -> Set<PeerAddr> {
        self.addrs@.to_set()
    }

    /// The empty set.
    pub fn new() -> (f: FailedPeers)
        ensures
            f@ == Set::<PeerAddr>::empty(),
    {
        let f = FailedPeers { addrs: Vec::new() };
        assert(f.addrs@.to_set() =~= Set::<PeerAddr>::empty());
        f
    }

    /// Whether `addr` is in the set.
    pub fn contains(&self, addr: PeerAddr) -> (b: bool)
        ensures
            b == self@.contains(addr),
    {
        let mut i: usize = 0;
        while i < self.addrs.len()
            invariant
                i <= self.addrs.len(),
                forall|j: int| 0 <= j < i ==> self.addrs@[j] != addr,
            decreases self.addrs.len() - i,
        {
            if self.addrs[i].same(&addr) {
                assert(self.addrs@.contains(addr));
                return true;
            }
            i += 1;
        }
        assert(!self.addrs@.contains(addr));
        false
    }

    /// Adds `addr` to the set.
    pub fn insert(&mut self, addr: PeerAddr)
        ensures
            final(self)@ == old(self)@.insert(addr),
    {
        if !self.contains(addr) {
            self.addrs.push(addr);
            proof {
                let before = old(self).addrs@;
                let after = self.addrs@;
                assert forall|a: PeerAddr| after.contains(a) <==> (before.contains(a) || a
                    == addr) by {
                    if before.contains(a) {
                        let j = choose|j: int| 0 <= j < before.len() && before[j] == a;
                        assert(after[j] == a);
                    }
                    if a == addr {
                        assert(after[after.len() - 1] == a);
                    }
                }
                assert(after.to_set() =~= before.to_set().insert(addr));
            }
        } else {
            assert(old(self)@.insert(addr) =~= old(self)@);
        }
    }
}

/// Entries that are not finalized, one for each address.
pub open spec fn unfinalized(addrs: Seq<PeerAddr>) -> Seq<PeerEntry> {
    addrs.map_values(|a: PeerAddr| PeerEntry { addr: a, finalized: false })
}

/// The addresses of a peer list that are new to this node, in the order of
/// the list: an address is new when it is not the node's own, has no entry in
/// the table, has not failed in this tree of dials, and did not come earlier
/// in the list.
pub open spec fn spec_fresh(
    known: Seq<PeerAddr>,
    failed: Set<PeerAddr>,
    local: PeerAddr,
    listed: Seq<PeerAddr>,
) -> Seq<PeerAddr>
    decreases listed.len(),
{
    if listed.len() == 0 {
        Seq::empty()
    } else {
        let before = spec_fresh(known, failed, local, listed.drop_last());
        let p = listed.last();
        if p != local && !known.contains(p) && !failed.contains(p) && !before.contains(p) {
            before.push(p)
        } else {
            before
        }
    }
}

/// Takes in the peer list `data` that a dialled peer has advertised.
///
/// Every address of the list that is new to this node gets an entry that is
/// not finalized. The result holds these addresses, in the order of the list:
/// each of them is to be dialled. A list that cannot be decoded leaves the
/// table as it was.
pub fn discover(peers: &mut PeerTable, failed: &FailedPeers, local: PeerAddr, data: &[u8]) -> (r:
    Result<Vec<PeerAddr>, AppError>)
    ensures
        final(peers).wf(),
        !holds(old(peers)@, local) ==> !holds(final(peers)@, local),
        match spec_decode_all(data@) {
            Ok(listed) => r is Ok && r->Ok_0@ == spec_fresh(
                addrs_of(old(peers)@),
                failed@,
                local,
                listed,
            ) && final(peers)@ == old(peers)@ + unfinalized(r->Ok_0@),
            Err(e) => r == Err::<Vec<PeerAddr>, AppError>(AppError::AddressCodec(e))
                && final(peers)@ == old(peers)@,
        },
{
    proof {
        use_type_invariant(&*peers);
    }
    let listed = match deserialize_addresses(data).collect() {
        Ok(listed) => listed,
        Err(e) => {
            return Err(AppError::AddressCodec(e));
        },
    };
    let mut dial: Vec<PeerAddr> = Vec::new();
    let ghost known = addrs_of(old(peers)@);
    let mut i: usize = 0;
    assert(old(peers)@ + unfinalized(dial@) =~= old(peers)@);
    while i < listed.len()
        invariant
            i <= listed.len(),
            peers.wf(),
            known == addrs_of(old(peers)@),
            dial@ == spec_fresh(known, failed@, local, listed@.take(i as int)),
            peers@ == old(peers)@ + unfinalized(dial@),
            !dial@.contains(local),
        decreases listed.len() - i,
    {
        let p = listed[i];
        proof {
            assert(listed@.take(i + 1).drop_last() =~= listed@.take(i as int));
            assert(listed@.take(i + 1).last() == p);
            lemma_holds_append(old(peers)@, dial@, p);
        }
        if !p.same(&local) && !failed.contains(p) {
            match peers.insert_if_absent(p) {
                InsertOutcome::Inserted => {
                    dial.push(p);
                    assert(peers@ =~= old(peers)@ + unfinalized(dial@));
                },
                _ => {},
            }
        }
        i += 1;
    }
    proof {
        assert(listed@.take(i as int) =~= listed@);
        if !holds(old(peers)@, local) {
            lemma_holds_append(old(peers)@, dial@, local);
        }
    }
    Ok(dial)
}

/// An address has an entry in a list of entries followed by unfinalized
/// entries exactly when it has one in the list or is one of the addresses
/// that follow.
pub proof fn lemma_holds_append(s: Seq<PeerEntry>, more: Seq<PeerAddr>, addr: PeerAddr)
    ensures
        holds(s + unfinalized(more), addr) <==> (addrs_of(s).contains(addr) || more.contains(addr)),
        holds(s, addr) <==> addrs_of(s).contains(addr),
{
    let all = s + unfinalized(more);
    if holds(s, addr) {
        let i = choose|i: int| 0 <= i < s.len() && #[trigger] s[i].addr == addr;
        assert(addrs_of(s)[i] == addr);
        assert(all[i].addr == addr);
    }
    if addrs_of(s).contains(addr) {
        let i = choose|i: int| 0 <= i < addrs_of(s).len() && addrs_of(s)[i] == addr;
        assert(s[i].addr == addr);
        assert(all[i].addr == addr);
    }
    if more.contains(addr) {
        let i = choose|i: int| 0 <= i < more.len() && more[i] == addr;
        assert(all[s.len() + i].addr == addr);
    }
    if holds(all, addr) {
        let i = choose|i: int| 0 <= i < all.len() && #[trigger] all[i].addr == addr;
        if i < s.len() {
            assert(s[i].addr == addr);
        } else {
            assert(more[i - s.len()] == addr);
        }
    }
}

/// What to do when a dial has ended.
#[derive(Debug, PartialEq, Eq)]
pub struct DialVerdict {
    /// The line to log, if any.
    pub line: Option<Vec<u8>>,
    /// Whether to close the connection that the dial has made, with the code
    /// and the reason for a duplicate.
    pub close_duplicate: bool,
}

/// Whether the node at `local`, whose dial to `remote` completed while a
/// finalized connection between the two was live, is the one that closes the
/// connection it dialled: it is when its own address comes first.
pub open spec fn closes_own_dial(local: PeerAddr, remote: PeerAddr) -> bool {
    local.spec_lt(remote)
}

/// Concludes a dial to `remote` from the node at `local`.
///
/// A dial that made a connection finalizes the entry of `remote`. Where the
/// entry was finalized before, the two nodes have dialled each other, and the
/// one whose address comes first closes the connection it dialled. A dial
/// that failed leaves the table as it was; unless the failure is benign, it
/// is logged and `remote` joins the failed peers.
pub fn conclude_dial(
    peers: &mut PeerTable,
    failed: &mut FailedPeers,
    local: PeerAddr,
    remote: PeerAddr,
    result: &Result<(), AppError>,
) -> (v: DialVerdict)
    ensures
        final(peers).wf(),
        match *result {
            Ok(_) => {
                &&& final(peers)@ == put(old(peers)@, remote, true)
                &&& holds_finalized(final(peers)@, remote)
                &&& final(failed)@ == old(failed)@
                &&& v.line is None
                &&& v.close_duplicate == (holds_finalized(old(peers)@, remote) && closes_own_dial(
                    local,
                    remote,
                ))
            },
            Err(e) => {
                &&& final(peers)@ == old(peers)@
                &&& !v.close_duplicate
                &&& if benign_error(e) {
                    v.line is None && final(failed)@ == old(failed)@
                } else {
                    v.line is Some && v.line->Some_0@ == spec_connect_failed(remote, e.text())
                        && final(failed)@ == old(failed)@.insert(remote)
                }
            },
        },
{
    proof {
        use_type_invariant(&*peers);
    }
    match result {
        Ok(_) => {
            let was = peers.promote(remote);
            let close_duplicate = match was {
                PromoteOutcome::WasFinalized => local.precedes(&remote),
                PromoteOutcome::Finalized => false,
            };
            DialVerdict { line: None, close_duplicate }
        },
        Err(e) => {
            if is_already_open_or_locally_closed_error(e) {
                DialVerdict { line: None, close_duplicate: false }
            } else {
                failed.insert(remote);
                DialVerdict { line: Some(connect_failed(&remote, e)), close_duplicate: false }
            }
        },
    }
}

/// What to do when a connection has ended.
#[derive(Debug, PartialEq, Eq)]
pub struct Disconnect {
    /// The line to log, if any.
    pub line: Option<Vec<u8>>,
    /// Whether to try to reconnect, with growing pauses between the attempts.
    pub reconnect: bool,
}

/// Concludes the connection to `remote`, which the transport has closed for
/// `reason`.
///
/// The entry of `remote` is no longer finalized, whatever the reason. The
/// reason is logged unless it is benign, and a reconnect is asked for only
/// after a timeout.
pub fn conclude_connection(peers: &mut PeerTable, remote: PeerAddr, reason: &CloseReason) -> (v:
    Disconnect)
    ensures
        final(peers).wf(),
        final(peers)@ == put(old(peers)@, remote, false),
        holds(final(peers)@, remote),
        !holds_finalized(final(peers)@, remote),
        v.reconnect == (reason.kind == CloseKind::TimedOut),
        if benign_reason(*reason) {
            v.line is None
        } else {
            v.line is Some && v.line->Some_0@ == spec_closed(remote, reason.text@)
        },
{
    let line = if is_already_open_or_locally_closed_reason(reason) {
        None
    } else {
        Some(closed(&remote, reason))
    };
    peers.demote(remote);
    let reconnect = match reason.kind {
        CloseKind::TimedOut => true,
        _ => false,
    };
    Disconnect { line, reconnect }
}

/// What one attempt of a reconnect starts with.
#[derive(Clone, Copy, Debug, PartialEq, Eq)]
pub enum Attempt {
    /// The peer has connected to this node meanwhile: stop, and count the
    /// peer as not reconnected by this node.
    Superseded,
    /// Dial the peer.
    Dial,
}

/// Decides how an attempt to reconnect to `remote` starts.
pub fn next_attempt(peers: &PeerTable, remote: PeerAddr) -> (a: Attempt)
    ensures
        a == (if holds_finalized(peers@, remote) {
            Attempt::Superseded
        } else {
            Attempt::Dial
        }),
{
    if peers.is_finalized(remote) {
        Attempt::Superseded
    } else {
        Attempt::Dial
    }
}

/// What to log when the dial of an attempt to reconnect to `remote` has
/// ended. With a connection made the reconnect is over and is announced;
/// after a failure nothing is logged here and the next attempt follows its
/// pause.
pub fn attempt_report(remote: &PeerAddr, result: &Result<(), AppError>) -> (line: Option<Vec<u8>>)
    ensures
        match *result {
            Ok(_) => line is Some && line->Some_0@ == spec_reconnected(*remote),
            Err(_) => line is None,
        },
{
    match result {
        Ok(_) => Some(reconnected(remote)),
        Err(_) => None,
    }
}

/// What the receiver of a connection does when reading has failed.
#[derive(Debug, PartialEq, Eq)]
pub enum ReceiverVerdict {
    /// The transport has closed the connection for this reason: stop.
    Closed(CloseReason),
    /// The connection is still open: log this line and go on reading.
    Resume(Vec<u8>),
}

/// Decides what the receiver of the connection to `remote` does when reading
/// has failed with `error`. `close_reason` is what the transport says of the
/// connection at that moment.
pub fn receiver_stopped(
    remote: &PeerAddr,
    close_reason: Option<CloseReason>,
    error: &AppError,
) -> (v: ReceiverVerdict)
    ensures
        match close_reason {
            Some(reason) => v == ReceiverVerdict::Closed(reason),
            None => v is Resume && v->Resume_0@ == spec_receive_failed(*remote, error.text()),
        },
{
    match close_reason {
        Some(reason) => ReceiverVerdict::Closed(reason),
        None => ReceiverVerdict::Resume(receive_failed(remote, error)),
    }
}

/// Ends the first connect, once every dial that it led to is over: the line
/// to log names the finalized peers, and every entry that is still not
/// finalized leaves the table.
pub fn finish_bootstrap(peers: &mut PeerTable) -> (line: Vec<u8>)
    ensures
        final(peers).wf(),
        final(peers)@ == kept(old(peers)@),
        line@ == spec_connected(quoted_list(finalized_of(old(peers)@))),
{
    let formatted = format_peers(peers);
    let line = connected(formatted.as_slice());
    peers.compact();
    line
}

/// The node's own address stays out of the table. A step that is about a
/// peer other than the node itself gives the node's address no entry: not
/// at the first connect, where the table starts with the first peer; not when
/// a connection is admitted, finalized or concluded; and not when the table
/// is compacted. (`discover` keeps the address out of what it takes in, and
/// says so itself.)
pub proof fn lemma_local_stays_out(
    s: Seq<PeerEntry>,
    local: PeerAddr,
    remote: PeerAddr,
    finalized: bool,
)
    requires
        distinct(s),
        !holds(s, local),
        remote != local,
    ensures
        !holds(seq![PeerEntry { addr: remote, finalized: false }], local),
        !holds(s.push(PeerEntry { addr: remote, finalized: false }), local),
        !holds(put(s, remote, finalized), local),
        !holds(kept(s), local),
{
    let first = seq![PeerEntry { addr: remote, finalized: false }];
    assert(forall|i: int| 0 <= i < first.len() ==> (#[trigger] first[i]).addr == remote);
    let pushed = s.push(PeerEntry { addr: remote, finalized: false });
    if holds(pushed, local) {
        let i = choose|i: int| 0 <= i < pushed.len() && #[trigger] pushed[i].addr == local;
        assert(s[i].addr == local);
    }
    lemma_put(s, remote, finalized, local);
    lemma_finalized_listed(s, local);
    if holds_finalized(s, local) {
        let i = choose|i: int|
            0 <= i < s.len() && #[trigger] s[i] == (PeerEntry { addr: local, finalized: true });
        assert(s[i].addr == local);
    }
}

/// Where every entry is finalized, the finalized entries are all the entries.
pub proof fn lemma_kept_all(s: Seq<PeerEntry>)
    requires
        forall|i: int| 0 <= i < s.len() ==> (#[trigger] s[i]).finalized,
    ensures
        kept(s) == s,
    decreases s.len(),
{
    if s.len() > 0 {
        lemma_kept_all(s.drop_last());
        assert(s.drop_last().push(s.last()) =~= s);
    }
}

/// What an admitted peer is sent are the records of the finalized membership
/// as it stands once the peer's own entry is finalized, provided that the
/// table holds no other entry that is not finalized.
pub proof fn lemma_advertised_membership(s: Seq<PeerEntry>, remote: PeerAddr)
    requires
        distinct(s),
        holds(s, remote),
        forall|i: int| 0 <= i < s.len() && (#[trigger] s[i]).addr != remote ==> s[i].finalized,
    ensures
        spec_encode_all(addrs_of(s)) == spec_encode_all(finalized_of(put(s, remote, true))),
{
    let after = put(s, remote, true);
    let at = place(s, remote);
    assert forall|i: int| 0 <= i < after.len() implies (#[trigger] after[i]).finalized by {
        if i != at {
            assert(after[i] == s[i]);
        }
    }
    lemma_kept_all(after);
    assert(addrs_of(after) =~= addrs_of(s));
}

/// When two nodes have dialled each other and both connections were made,
/// exactly one of the two nodes closes the connection that it dialled.
pub proof fn lemma_one_side_closes(a: PeerAddr, b: PeerAddr)
    requires
        a != b,
    ensures
        closes_own_dial(a, b) != closes_own_dial(b, a),
{
    lemma_order_total(a, b);
}

/// Entries are never removed but by compaction: an address that has an entry
/// keeps it when a connection is admitted, finalized or concluded, and when a
/// peer list is taken in; and it keeps its flag unless the step is about it.
pub proof fn lemma_entries_stay(
    s: Seq<PeerEntry>,
    remote: PeerAddr,
    finalized: bool,
    more: Seq<PeerAddr>,
    addr: PeerAddr,
)
    requires
        distinct(s),
        holds(s, addr),
    ensures
        holds(s.push(PeerEntry { addr: remote, finalized: false }), addr),
        holds(put(s, remote, finalized), addr),
        holds(s + unfinalized(more), addr),
        addr != remote ==> (holds_finalized(put(s, remote, finalized), addr) <==> holds_finalized(
            s,
            addr,
        )),
{
    lemma_put(s, remote, finalized, addr);
    lemma_holds_append(s, more, addr);
    let i = choose|i: int| 0 <= i < s.len() && #[trigger] s[i].addr == addr;
    assert(s.push(PeerEntry { addr: remote, finalized: false })[i].addr == addr);
}

} // verus!
