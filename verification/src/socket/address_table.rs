//! A table from peer addresses to connection identifiers.

use vstd::prelude::*;

use crate::packet::PeerAddr;

verus! {

/// No address belongs to `cid`.
pub open spec fn leads_nowhere(routes: Map<PeerAddr, u32>, cid: u32) -> bool {
    forall|a: PeerAddr| #[trigger] routes.contains_key(a) ==> routes[a] != cid
}

/// Which connection a peer address belongs to; every address occurs once.
#[derive(Debug)]
pub struct AddressTable {
    entries: Vec<(PeerAddr, u32)>,
}

/// Whether `addr` is the key of some entry.
spec fn listed(entries: Seq<(PeerAddr, u32)>, addr: PeerAddr) -> bool {
    exists|i: int| 0 <= i < entries.len() && #[trigger] entries[i].0 == addr
}

/// The map that a list of entries stands for.
spec fn table_of(entries: Seq<(PeerAddr, u32)>) -> Map<PeerAddr, u32> {
    Map::new(
        |addr: PeerAddr| listed(entries, addr),
        |addr: PeerAddr|
            entries[choose|i: int| 0 <= i < entries.len() && #[trigger] entries[i].0 == addr].1,
    )
}

impl View for AddressTable {
    type V = Map<PeerAddr, u32>;

    closed spec fn view(&self) -> Map<PeerAddr, u32> {
        table_of(self.entries@)
    }
}

impl AddressTable {
    /// No address occurs twice.
    pub closed spec fn wf(&self) -> bool {
        forall|i: int, j: int|
            0 <= i < j < self.entries@.len() ==> #[trigger] self.entries@[i].0
                != #[trigger] self.entries@[j].0
    }

    proof fn lemma_entry(&self, i: int)
        requires
            self.wf(),
            0 <= i < self.entries@.len(),
        ensures
            self@.contains_key(self.entries@[i].0),
            self@[self.entries@[i].0] == self.entries@[i].1,
    {
        let addr = self.entries@[i].0;
        assert(listed(self.entries@, addr));
        let j = choose|j: int|
            0 <= j < self.entries@.len() && #[trigger] self.entries@[j].0 == addr;
        assert(i == j);
    }

    pub fn new() -> (table: Self)
        ensures
            table.wf(),
            table@ == Map::<PeerAddr, u32>::empty(),
    {
        let table = AddressTable { entries: Vec::new() };
        assert(table@ =~= Map::<PeerAddr, u32>::empty());
        table
    }

    /// The position of `addr`, or the number of entries where it has none.
    fn position(&self, addr: PeerAddr) -> (p: usize)
        requires
            self.wf(),
        ensures
            p <= self.entries@.len(),
            self@.contains_key(addr) <==> p < self.entries@.len(),
            p < self.entries@.len() ==> self.entries@[p as int].0 == addr && self@[addr]
                == self.entries@[p as int].1,
    {
        let mut i: usize = 0;
        while i < self.entries.len()
            invariant
                self.wf(),
                i <= self.entries@.len(),
                forall|j: int| 0 <= j < i ==> #[trigger] self.entries@[j].0 != addr,
            decreases self.entries@.len() - i,
        {
            if self.entries[i].0 == addr {
                proof {
                    self.lemma_entry(i as int);
                }
                return i;
            }
            i = i + 1;
        }
        assert(!listed(self.entries@, addr));
        i
    }

    /// The connection that `addr` belongs to.
    pub fn get(&self, addr: PeerAddr) -> (cid: Option<u32>)
        requires
            self.wf(),
        ensures
            cid == (if self@.contains_key(addr) {
                Some(self@[addr])
            } else {
                None
            }),
    {
        let p = self.position(addr);
        if p < self.entries.len() {
            Some(self.entries[p].1)
        } else {
            None
        }
    }

    /// Lets `addr` belong to `cid`, whatever it belonged to before.
    pub fn insert(&mut self, addr: PeerAddr, cid: u32)
        requires
            old(self).wf(),
        ensures
            final(self).wf(),
            final(self)@ == old(self)@.insert(addr, cid),
    {
        self.remove(addr);
        let ghost before = *self;
        self.entries.push((addr, cid));
        proof {
            assert forall|i: int, j: int| 0 <= i < j < self.entries@.len() implies #[trigger] self.entries@[i].0
                != #[trigger] self.entries@[j].0 by {
                if j == before.entries@.len() {
                    before.lemma_entry(i);
                    assert(self.entries@[i] == before.entries@[i]);
                }
            }
            assert forall|a: PeerAddr| #[trigger] self@.contains_key(a) <==> before@.contains_key(a) || a == addr by {
                if before@.contains_key(a) {
                    let i = choose|i: int| 0 <= i < before.entries@.len() && #[trigger] before.entries@[i].0 == a;
                    assert(self.entries@[i].0 == a);
                }
                if a == addr {
                    assert(self.entries@[before.entries@.len() as int].0 == a);
                }
                if self@.contains_key(a) {
                    let i = choose|i: int| 0 <= i < self.entries@.len() && #[trigger] self.entries@[i].0 == a;
                    if i < before.entries@.len() {
                        before.lemma_entry(i);
                    }
                }
            }
            assert forall|a: PeerAddr| #[trigger] self@.contains_key(a) implies self@[a] == before@.insert(addr, cid)[a] by {
                let i = choose|i: int| 0 <= i < self.entries@.len() && #[trigger] self.entries@[i].0 == a;
                self.lemma_entry(i);
                if i < before.entries@.len() {
                    before.lemma_entry(i);
                }
            }
            assert(self@ =~= before@.insert(addr, cid));
            assert(before@.insert(addr, cid) =~= old(self)@.insert(addr, cid));
        }
    }

    /// Forgets `addr`.
    pub fn remove(&mut self, addr: PeerAddr)
        requires
            old(self).wf(),
        ensures
            final(self).wf(),
            final(self)@ == old(self)@.remove(addr),
    {
        let p = self.position(addr);
        if p < self.entries.len() {
            let ghost before = *self;
            self.entries.remove(p);
            proof {
                let es = self.entries@;
                assert forall|i: int| 0 <= i < es.len() implies #[trigger] es[i] == before.entries@[if i < p { i } else { i + 1 }] by {}
                assert forall|i: int, j: int| 0 <= i < j < es.len() implies #[trigger] es[i].0 != #[trigger] es[j].0 by {
                    let i0 = if i < p { i } else { i + 1 };
                    let j0 = if j < p { j } else { j + 1 };
                    assert(before.entries@[i0].0 != before.entries@[j0].0);
                }
                assert forall|a: PeerAddr| #[trigger] self@.contains_key(a) <==> before@.contains_key(a) && a != addr by {
                    if before@.contains_key(a) && a != addr {
                        let i = choose|i: int| 0 <= i < before.entries@.len() && #[trigger] before.entries@[i].0 == a;
                        let k = if i < p { i } else { i - 1 };
                        assert(es[k].0 == a);
                    }
                    if self@.contains_key(a) {
                        let i = choose|i: int| 0 <= i < es.len() && #[trigger] es[i].0 == a;
                        let i0 = if i < p { i } else { i + 1 };
                        before.lemma_entry(i0);
                        assert(before.entries@[i0].0 != before.entries@[p as int].0);
                    }
                }
                assert forall|a: PeerAddr| #[trigger] self@.contains_key(a) implies self@[a] == before@[a] by {
                    let i = choose|i: int| 0 <= i < es.len() && #[trigger] es[i].0 == a;
                    self.lemma_entry(i);
                    before.lemma_entry(if i < p { i } else { i + 1 });
                }
                assert(self@ =~= before@.remove(addr));
            }
        } else {
            assert(self@ =~= self@.remove(addr));
        }
    }

    /// Some address that belongs to `cid`.
    pub fn find_by_cid(&self, cid: u32) -> (addr: Option<PeerAddr>)
        requires
            self.wf(),
        ensures
            match addr {
                Some(a) => self@.contains_key(a) && self@[a] == cid,
                None => leads_nowhere(self@, cid),
            },
    {
        let mut i: usize = 0;
        while i < self.entries.len()
            invariant
                self.wf(),
                i <= self.entries@.len(),
                forall|j: int| 0 <= j < i ==> #[trigger] self.entries@[j].1 != cid,
            decreases self.entries@.len() - i,
        {
            if self.entries[i].1 == cid {
                proof {
                    self.lemma_entry(i as int);
                }
                return Some(self.entries[i].0);
            }
            i = i + 1;
        }
        proof {
            assert forall|a: PeerAddr| #[trigger] self@.contains_key(a) implies self@[a] != cid by {
                let j = choose|j: int| 0 <= j < self.entries@.len() && #[trigger] self.entries@[j].0 == a;
                self.lemma_entry(j);
            }
        }
        None
    }
}

} // verus!
