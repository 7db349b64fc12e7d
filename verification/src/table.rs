//! The peer table: which addresses are known, and for which of them an
//! established connection is live right now.

use vstd::prelude::*;
use crate::addr::PeerAddr;

verus! {

/// One entry of the peer table. `finalized` is false while a connection is in
/// progress or the peer is disconnected, and true while an established
/// connection to the peer is live.
#[derive(Clone, Copy, Debug, PartialEq, Eq)]
pub struct PeerEntry {
    pub addr: PeerAddr,
    pub finalized: bool,
}

/// What `insert_if_absent` found.
#[derive(Clone, Copy, Debug, PartialEq, Eq)]
pub enum InsertOutcome {
    /// The address was unknown and now has an entry that is not finalized.
    Inserted,
    /// The address had an entry that is not finalized.
    AlreadyPresent,
    /// The address had a finalized entry.
    AlreadyFinalized,
}

/// What `promote` found.
#[derive(Clone, Copy, Debug, PartialEq, Eq)]
pub enum PromoteOutcome {
    /// The entry was finalized before the call.
    WasFinalized,
    /// The entry is finalized by this call.
    Finalized,
}

/// No address has two entries.
pub open spec fn distinct(s: Seq<PeerEntry>) -> bool {
    forall|i: int, j: int| 0 <= i < j < s.len() ==> s[i].addr != s[j].addr
}

/// Whether `addr` has an entry.
pub open spec fn holds(s: Seq<PeerEntry>, addr: PeerAddr) -> bool {
    exists|i: int| 0 <= i < s.len() && #[trigger] s[i].addr == addr
}

/// Whether `addr` has a finalized entry.
pub open spec fn holds_finalized(s: Seq<PeerEntry>, addr: PeerAddr) -> bool {
    exists|i: int| 0 <= i < s.len() && #[trigger] s[i] == (PeerEntry { addr, finalized: true })
}

/// A place at which `addr` has its entry.
pub open spec fn place(s: Seq<PeerEntry>, addr: PeerAddr) -> int {
    choose|i: int| 0 <= i < s.len() && #[trigger] s[i].addr == addr
}

/// The entries after the flag of `addr` is set: an entry that is there keeps
/// its place, a new entry goes to the end.
pub open spec fn put(s: Seq<PeerEntry>, addr: PeerAddr, finalized: bool) -> Seq<PeerEntry> {
    if holds(s, addr) {
        s.update(place(s, addr), PeerEntry { addr, finalized })
    } else {
        s.push(PeerEntry { addr, finalized })
    }
}

/// The addresses of the entries, in order.
pub open spec fn addrs_of(s: Seq<PeerEntry>) -> Seq<PeerAddr> {
    s.map_values(|e: PeerEntry| e.addr)
}

/// The finalized entries, in order.
pub open spec fn kept(s: Seq<PeerEntry>) -> Seq<PeerEntry>
    decreases s.len(),
{
    if s.len() == 0 {
        s
    } else if s.last().finalized {
        kept(s.drop_last()).push(s.last())
    } else {
        kept(s.drop_last())
    }
}

/// The addresses of the finalized entries, in order.
pub open spec fn finalized_of(s: Seq<PeerEntry>) -> Seq<PeerAddr> {
    addrs_of(kept(s))
}

/// The shared membership map. Entries stay in the order in which their
/// addresses first came in, and no address has two entries.
pub struct PeerTable {
    entries: Vec<PeerEntry>,
}

impl PeerTable {
    /// The entries, in the order in which their addresses first came in.
    pub closed spec fn view(&self) -> Seq<PeerEntry> {
        self.entries@
    }

    /// What holds of every table: no address has two entries.
    #[verifier::type_invariant]
    pub open spec fn wf(&self) -> bool {
        distinct(self@)
    }

    /// Whether `addr` has an entry.
    pub open spec fn spec_contains(&self, addr: PeerAddr) -> bool {
        holds(self@, addr)
    }

    /// Whether `addr` has a finalized entry.
    pub open spec fn spec_is_finalized(&self, addr: PeerAddr) -> bool {
        holds_finalized(self@, addr)
    }

    /// An empty table.
    pub fn new() -> (t: PeerTable)
        ensures
            t@ == Seq::<PeerEntry>::empty(),
            t.wf(),
    {
        PeerTable { entries: Vec::new() }
    }

    /// The number of entries.
    pub fn len(&self) -> (n: usize)
        ensures
            n == self@.len(),
    {
        self.entries.len()
    }

    /// Where `addr` has its entry.
    fn find(&self, addr: &PeerAddr) -> (r: Option<usize>)
        ensures
            match r {
                Some(i) => i < self@.len() && self@[i as int].addr == *addr,
                None => !holds(self@, *addr),
            },
    {
        let mut i: usize = 0;
        while i < self.entries.len()
            invariant
                i <= self.entries.len(),
                forall|j: int| 0 <= j < i ==> self.entries@[j].addr != *addr,
            decreases self.entries.len() - i,
        {
            if self.entries[i].addr.same(addr) {
                return Some(i);
            }
            i += 1;
        }
        None
    }

    /// Whether `addr` has an entry.
    #[verifier::when_used_as_spec(spec_contains)]
    pub fn contains(&self, addr: PeerAddr) -> (b: bool)
        ensures
            b == self.spec_contains(addr),
    {
        self.find(&addr).is_some()
    }

    /// Whether `addr` has a finalized entry.
    #[verifier::when_used_as_spec(spec_is_finalized)]
    pub fn is_finalized(&self, addr: PeerAddr) -> (b: bool)
        ensures
            b == self.spec_is_finalized(addr),
    {
        proof {
            use_type_invariant(&*self);
        }
        match self.find(&addr) {
            Some(i) => {
                let flag = self.entries[i].finalized;
                assert(self@[i as int] == (PeerEntry { addr, finalized: flag }));
                flag
            },
            None => false,
        }
    }
    /// Whether the table has no entry.
    pub fn is_empty(&self) -> (b: bool)
        ensures
            b == (self@.len() == 0),
    {
        self.entries.len() == 0
    }

    /// A table whose one entry is `first`, not finalized.
    pub fn seeded(first: PeerAddr) -> (t: PeerTable)
        ensures
            t@ == seq![PeerEntry { addr: first, finalized: false }],
            t.wf(),
    {
        let mut entries: Vec<PeerEntry> = Vec::new();
        entries.push(PeerEntry { addr: first, finalized: false });
        PeerTable { entries }
    }

    /// Gives `addr` an entry that is not finalized, unless it has an entry
    /// already, and says which of the three was the case.
    pub fn insert_if_absent(&mut self, addr: PeerAddr) -> (r: InsertOutcome)
        ensures
            final(self).wf(),
            r == (if holds_finalized(old(self)@, addr) {
                InsertOutcome::AlreadyFinalized
            } else if holds(old(self)@, addr) {
                InsertOutcome::AlreadyPresent
            } else {
                InsertOutcome::Inserted
            }),
            final(self)@ == (if holds(old(self)@, addr) {
                old(self)@
            } else {
                old(self)@.push(PeerEntry { addr, finalized: false })
            }),
            holds(final(self)@, addr),
    {
        proof {
            use_type_invariant(&*self);
        }
        match self.find(&addr) {
            Some(i) => {
                let flag = self.entries[i].finalized;
                assert(self@[i as int] == (PeerEntry { addr, finalized: flag }));
                if flag {
                    InsertOutcome::AlreadyFinalized
                } else {
                    InsertOutcome::AlreadyPresent
                }
            },
            None => {
                // the entries are taken out while they change, so that the
                // table itself is well formed at every moment
                let mut entries: Vec<PeerEntry> = Vec::new();
                core::mem::swap(&mut self.entries, &mut entries);
                entries.push(PeerEntry { addr, finalized: false });
                self.entries = entries;
                assert(self@[self@.len() - 1].addr == addr);
                InsertOutcome::Inserted
            },
        }
    }

    /// Sets the flag of `addr`, with a new entry at the end if it has none.
    fn set_flag(&mut self, addr: PeerAddr, finalized: bool) -> (was: bool)
        ensures
            final(self).wf(),
            final(self)@ == put(old(self)@, addr, finalized),
            was == holds_finalized(old(self)@, addr),
            holds(final(self)@, addr),
            holds_finalized(final(self)@, addr) == finalized,
    {
        proof {
            use_type_invariant(&*self);
        }
        proof {
            lemma_put(old(self)@, addr, finalized, addr);
        }
        match self.find(&addr) {
            Some(i) => {
                let was = self.entries[i].finalized;
                assert(self@[i as int] == (PeerEntry { addr, finalized: was }));
                let mut entries: Vec<PeerEntry> = Vec::new();
                core::mem::swap(&mut self.entries, &mut entries);
                entries[i] = PeerEntry { addr, finalized };
                self.entries = entries;
                proof {
                    assert(place(old(self)@, addr) == i as int);
                }
                was
            },
            None => {
                let mut entries: Vec<PeerEntry> = Vec::new();
                core::mem::swap(&mut self.entries, &mut entries);
                entries.push(PeerEntry { addr, finalized });
                self.entries = entries;
                false
            },
        }
    }

    /// Marks `addr` as finalized, with a new entry if it has none, and says
    /// whether it was finalized before.
    pub fn promote(&mut self, addr: PeerAddr) -> (r: PromoteOutcome)
        ensures
            final(self).wf(),
            final(self)@ == put(old(self)@, addr, true),
            holds_finalized(final(self)@, addr),
            r == (if holds_finalized(old(self)@, addr) {
                PromoteOutcome::WasFinalized
            } else {
                PromoteOutcome::Finalized
            }),
    {
        if self.set_flag(addr, true) {
            PromoteOutcome::WasFinalized
        } else {
            PromoteOutcome::Finalized
        }
    }

    /// Marks `addr` as not finalized, with a new entry if it has none.
    pub fn demote(&mut self, addr: PeerAddr)
        ensures
            final(self).wf(),
            final(self)@ == put(old(self)@, addr, false),
            holds(final(self)@, addr),
            !holds_finalized(final(self)@, addr),
    {
        self.set_flag(addr, false);
    }

    /// Every known address, finalized or not, in the order of the entries.
    pub fn known(&self) -> (v: Vec<PeerAddr>)
        ensures
            v@ == addrs_of(self@),
    {
        let mut v: Vec<PeerAddr> = Vec::new();
        let mut i: usize = 0;
        while i < self.entries.len()
            invariant
                i <= self.entries.len(),
                v@ == addrs_of(self.entries@.take(i as int)),
            decreases self.entries.len() - i,
        {
            v.push(self.entries[i].addr);
            assert(self.entries@.take(i + 1) =~= self.entries@.take(i as int).push(
                self.entries@[i as int],
            ));
            assert(v@ =~= addrs_of(self.entries@.take(i + 1)));
            i += 1;
        }
        assert(self.entries@.take(i as int) =~= self.entries@);
        v
    }

    /// The addresses of the finalized entries, in the order of the entries.
    pub fn snapshot_finalized(&self) -> (v: Vec<PeerAddr>)
        ensures
            v@ == finalized_of(self@),
    {
        let mut v: Vec<PeerAddr> = Vec::new();
        let mut i: usize = 0;
        while i < self.entries.len()
            invariant
                i <= self.entries.len(),
                v@ == finalized_of(self.entries@.take(i as int)),
            decreases self.entries.len() - i,
        {
            let entry = self.entries[i];
            proof {
                let before = self.entries@.take(i as int);
                let after = self.entries@.take(i + 1);
                assert(after.drop_last() =~= before);
                assert(after.last() == entry);
                if entry.finalized {
                    assert(addrs_of(kept(before).push(entry)) =~= addrs_of(kept(before)).push(
                        entry.addr,
                    ));
                }
            }
            if entry.finalized {
                v.push(entry.addr);
            }
            i += 1;
        }
        assert(self.entries@.take(i as int) =~= self.entries@);
        v
    }

    /// Removes every entry that is not finalized.
    pub fn compact(&mut self)
        ensures
            final(self).wf(),
            final(self)@ == kept(old(self)@),
    {
        proof {
            use_type_invariant(&*self);
        }
        let mut out: Vec<PeerEntry> = Vec::new();
        let mut i: usize = 0;
        while i < self.entries.len()
            invariant
                i <= self.entries.len(),
                out@ == kept(self.entries@.take(i as int)),
            decreases self.entries.len() - i,
        {
            let entry = self.entries[i];
            proof {
                let before = self.entries@.take(i as int);
                let after = self.entries@.take(i + 1);
                assert(after.drop_last() =~= before);
                assert(after.last() == entry);
            }
            if entry.finalized {
                out.push(entry);
            }
            i += 1;
        }
        proof {
            assert(self.entries@.take(i as int) =~= self.entries@);
            lemma_kept(self.entries@);
        }
        self.entries = out;
    }
}

/// The finalized entries of a list are entries of the list, each of them
/// finalized, and no address has two of them where none has two in the list.
pub proof fn lemma_kept(s: Seq<PeerEntry>)
    ensures
        kept(s).len() <= s.len(),
        forall|k: int|
            0 <= k < kept(s).len() ==> (#[trigger] kept(s)[k]).finalized && s.contains(kept(s)[k]),
        distinct(s) ==> distinct(kept(s)),
    decreases s.len(),
{
    if s.len() > 0 {
        let front = s.drop_last();
        lemma_kept(front);
        assert forall|k: int| 0 <= k < kept(s).len() implies (#[trigger] kept(s)[k]).finalized
            && s.contains(kept(s)[k]) by {
            if k < kept(front).len() {
                let j = choose|j: int| 0 <= j < front.len() && front[j] == kept(front)[k];
                assert(s[j] == kept(s)[k]);
            } else {
                assert(s[s.len() - 1] == kept(s)[k]);
            }
        }
        if distinct(s) {
            assert(distinct(front));
            assert forall|a: int, b: int| 0 <= a < b < kept(s).len() implies kept(s)[a].addr
                != kept(s)[b].addr by {
                if b == kept(front).len() {
                    let j = choose|j: int| 0 <= j < front.len() && front[j] == kept(front)[a];
                    assert(s[j].addr != s[s.len() - 1].addr);
                }
            }
        }
    }
}

/// Setting the flag of an address keeps every address apart, gives the
/// address an entry, and leaves every other address as it was.
pub proof fn lemma_put(s: Seq<PeerEntry>, addr: PeerAddr, finalized: bool, other: PeerAddr)
    requires
        distinct(s),
    ensures
        distinct(put(s, addr, finalized)),
        holds(put(s, addr, finalized), other) <==> (holds(s, other) || other == addr),
        holds_finalized(put(s, addr, finalized), other) <==> (if other == addr {
            finalized
        } else {
            holds_finalized(s, other)
        }),
{
    let after = put(s, addr, finalized);
    let entry = PeerEntry { addr, finalized };
    let at = if holds(s, addr) {
        place(s, addr)
    } else {
        s.len() as int
    };
    assert(after[at] == entry);
    assert(after[at].addr == addr);
    assert(forall|i: int| 0 <= i < s.len() && i != at ==> after[i] == s[i]);
    assert(forall|i: int| 0 <= i < s.len() && i != at ==> s[i].addr != addr);
    if holds(s, other) && other != addr {
        let i = choose|i: int| 0 <= i < s.len() && #[trigger] s[i].addr == other;
        assert(after[i].addr == other);
    }
    if holds(after, other) {
        let i = choose|i: int| 0 <= i < after.len() && #[trigger] after[i].addr == other;
        if i != at {
            assert(s[i].addr == other);
        }
    }
    if holds_finalized(s, other) && other != addr {
        let i = choose|i: int|
            0 <= i < s.len() && #[trigger] s[i] == (PeerEntry { addr: other, finalized: true });
        assert(after[i] == s[i]);
    }
    if holds_finalized(after, other) {
        let i = choose|i: int|
            0 <= i < after.len() && #[trigger] after[i] == (PeerEntry {
                addr: other,
                finalized: true,
            });
        if i != at {
            assert(s[i] == after[i]);
        }
    }
}

/// An address is among the finalized addresses exactly when it has a
/// finalized entry. So a peer whose entry is not finalized is not listed.
pub proof fn lemma_finalized_listed(s: Seq<PeerEntry>, addr: PeerAddr)
    ensures
        finalized_of(s).contains(addr) <==> holds_finalized(s, addr),
        holds(kept(s), addr) <==> holds_finalized(s, addr),
        holds_finalized(kept(s), addr) <==> holds_finalized(s, addr),
    decreases s.len(),
{
    let entry = PeerEntry { addr, finalized: true };
    if s.len() > 0 {
        let front = s.drop_last();
        lemma_finalized_listed(front, addr);
        if holds_finalized(front, addr) {
            let i = choose|i: int| 0 <= i < front.len() && #[trigger] front[i] == entry;
            assert(s[i] == entry);
        }
        if holds_finalized(s, addr) {
            let i = choose|i: int| 0 <= i < s.len() && #[trigger] s[i] == entry;
            if i < front.len() {
                assert(front[i] == entry);
            }
        }
        assert(holds_finalized(s, addr) <==> (holds_finalized(front, addr) || s.last() == entry));
    }
    let k = kept(s);
    if finalized_of(s).contains(addr) {
        let i = choose|i: int| 0 <= i < finalized_of(s).len() && finalized_of(s)[i] == addr;
        assert(k[i].addr == addr);
    }
    if holds(k, addr) {
        let i = choose|i: int| 0 <= i < k.len() && #[trigger] k[i].addr == addr;
        assert(finalized_of(s)[i] == addr);
        lemma_kept(s);
        assert(k[i].finalized);
        assert(k[i] == entry);
    }
    if holds_finalized(k, addr) {
        let i = choose|i: int| 0 <= i < k.len() && #[trigger] k[i] == entry;
        assert(k[i].addr == addr);
    }
    if s.len() > 0 && holds_finalized(s, addr) {
        let front = s.drop_last();
        if s.last() == entry {
            assert(k == kept(front).push(entry));
            assert(k[k.len() - 1].addr == addr);
        } else {
            assert(holds(kept(front), addr));
            let i = choose|i: int| 0 <= i < kept(front).len() && #[trigger] kept(front)[i].addr
                == addr;
            assert(k[i].addr == addr);
        }
    }
}

} // verus!
