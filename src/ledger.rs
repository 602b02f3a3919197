//! The ledger: transactions kept in ascending block-time order, those with
//! equal block times in the order in which they were found.

use vstd::prelude::*;
use crate::events::{Transfer, TransferView};

verus! {

/// A transaction with the transfers that its query pass kept.
#[derive(Clone, Debug)]
pub struct Tx {
    pub hash: String,
    pub height: u64,
    /// When its block was committed, in nanoseconds since the Unix epoch.
    pub block_time: i128,
    pub transfers: Vec<Transfer>,
}

pub struct TxView {
    pub hash: Seq<char>,
    pub height: u64,
    pub block_time: i128,
    pub transfers: Seq<TransferView>,
}

impl View for Tx {
    type V = TxView;

    open spec fn view(&self) -> TxView {
        TxView {
            hash: self.hash@,
            height: self.height,
            block_time: self.block_time,
            transfers: self.transfers@.map_values(|t: Transfer| t@),
        }
    }
}

/// A transaction with the place in which it was found.
struct Slot {
    seq: usize,
    tx: Tx,
}

/// Whether slot key `(ta, sa)` comes strictly before `(tb, sb)`: earlier block
/// time first, then earlier discovery.
pub open spec fn precedes(ta: i128, sa: int, tb: i128, sb: int) -> bool {
    ta < tb || (ta == tb && sa < sb)
}

/// The ordered transactions, each tagged with its discovery index.
pub struct Ledger {
    slots: Vec<Slot>,
    found: Ghost<Seq<TxView>>,
}

impl Ledger {
    /// Every transaction inserted so far, in the order of insertion.
    pub closed spec fn discovered(&self) -> Seq<TxView> {
        self.found@
    }

    /// The ledger in its order: each transaction's discovery index and view.
    pub closed spec fn entries(&self) -> Seq<(int, TxView)> {
        self.slots@.map_values(|s: Slot| (s.seq as int, s.tx@))
    }

    pub closed spec fn wf(&self) -> bool {
        &&& self.slots@.len() == self.found@.len()
        &&& forall|i: int| 0 <= i < self.slots@.len() ==> {
            &&& (#[trigger] self.slots@[i]).seq < self.found@.len()
            &&& self.found@[self.slots@[i].seq as int] == self.slots@[i].tx@
        }
        &&& forall|i: int, j: int| 0 <= i < j < self.slots@.len() ==> precedes(
            (#[trigger] self.slots@[i]).tx.block_time,
            self.slots@[i].seq as int,
            (#[trigger] self.slots@[j]).tx.block_time,
            self.slots@[j].seq as int,
        )
    }

    pub fn new() -> (r: Ledger)
        ensures
            r.wf(),
            r.discovered() == Seq::<TxView>::empty(),
    {
        Ledger { slots: Vec::new(), found: Ghost(Seq::empty()) }
    }

    pub fn len(&self) -> (r: usize)
        requires
            self.wf(),
        ensures
            r == self.discovered().len(),
    {
        self.slots.len()
    }

    /// Adds a transaction after every one whose block time is not later.
    pub fn insert(&mut self, tx: Tx)
        requires
            old(self).wf(),
        ensures
            final(self).wf(),
            final(self).discovered() == old(self).discovered().push(tx@),
    {
        let n = self.slots.len();
        let t = tx.block_time;
        let mut p: usize = 0;
        while p < n && self.slots[p].tx.block_time <= t
            invariant
                n == self.slots@.len(),
                p <= n,
                forall|j: int| 0 <= j < p ==> (#[trigger] self.slots@[j]).tx.block_time <= t,
            decreases n - p,
        {
            p = p + 1;
        }
        let ghost old_slots = self.slots@;
        let ghost v = tx@;
        proof {
            if p < n {
                assert forall|j: int| p <= j < n implies (#[trigger] old_slots[j]).tx.block_time > t by {
                    if j > p {
                        assert(precedes(old_slots[p as int].tx.block_time, old_slots[p as int].seq as int,
                            old_slots[j].tx.block_time, old_slots[j].seq as int));
                    }
                }
            }
        }
        self.slots.insert(p, Slot { seq: n, tx });
        self.found = Ghost(self.found@.push(v));
        let ghost s = self.slots@;
        assert(s == old_slots.insert(p as int, s[p as int]));
        assert forall|i: int| 0 <= i < s.len() implies {
            &&& (#[trigger] s[i]).seq < self.found@.len()
            &&& self.found@[s[i].seq as int] == s[i].tx@
        } by {
            if i < p {
                assert(s[i] == old_slots[i]);
            } else if i > p {
                assert(s[i] == old_slots[i - 1]);
            }
        }
        assert forall|i: int, j: int| 0 <= i < j < s.len() implies precedes(
            (#[trigger] s[i]).tx.block_time, s[i].seq as int,
            (#[trigger] s[j]).tx.block_time, s[j].seq as int,
        ) by {
            if i < p {
                assert(s[i] == old_slots[i]);
            } else if i > p {
                assert(s[i] == old_slots[i - 1]);
            }
            if j < p {
                assert(s[j] == old_slots[j]);
            } else if j > p {
                assert(s[j] == old_slots[j - 1]);
            }
        }
    }

    /// The transactions in ledger order.
    pub fn into_txs(self) -> (r: Vec<Tx>)
        requires
            self.wf(),
        ensures
            r@.map_values(|t: Tx| t@) == self.entries().map_values(|e: (int, TxView)| e.1),
    {
        let mut slots = self.slots;
        let ghost all = slots@;
        let mut out: Vec<Tx> = Vec::new();
        while slots.len() > 0
            invariant
                out@.len() + slots@.len() == all.len(),
                forall|i: int| 0 <= i < out@.len() ==> (#[trigger] out@[i])@ == all[all.len() - 1 - i].tx@,
                slots@ == all.subrange(0, slots@.len() as int),
            decreases slots@.len(),
        {
            let s = slots.pop().unwrap();
            out.push(s.tx);
        }
        let mut r: Vec<Tx> = Vec::new();
        while out.len() > 0
            invariant
                out@.len() + r@.len() == all.len(),
                forall|i: int| 0 <= i < out@.len() ==> (#[trigger] out@[i])@ == all[all.len() - 1 - i].tx@,
                forall|i: int| 0 <= i < r@.len() ==> (#[trigger] r@[i])@ == all[i].tx@,
            decreases out@.len(),
        {
            let t = out.pop().unwrap();
            r.push(t);
        }
        assert(r@.map_values(|t: Tx| t@) =~= self.entries().map_values(|e: (int, TxView)| e.1));
        r
    }
}

/// Whether some entry carries discovery index `k`.
pub open spec fn holds_index(e: Seq<(int, TxView)>, k: int) -> bool {
    exists|i: int| 0 <= i < e.len() && (#[trigger] e[i]).0 == k
}

/// A ledger lists its transactions in non-decreasing block time; transactions
/// with the same block time stand in the order in which they were found; and
/// every transaction found stands in it exactly once.
pub proof fn lemma_ledger_order(l: &Ledger)
    requires
        l.wf(),
    ensures
        l.entries().len() == l.discovered().len(),
        forall|i: int, j: int| 0 <= i < j < l.entries().len() ==>
            (#[trigger] l.entries()[i]).1.block_time <= (#[trigger] l.entries()[j]).1.block_time,
        forall|i: int, j: int| 0 <= i < j < l.entries().len()
            && (#[trigger] l.entries()[i]).1.block_time == (#[trigger] l.entries()[j]).1.block_time
            ==> l.entries()[i].0 < l.entries()[j].0,
        forall|i: int| 0 <= i < l.entries().len() ==> {
            &&& 0 <= (#[trigger] l.entries()[i]).0 < l.discovered().len()
            &&& l.discovered()[l.entries()[i].0] == l.entries()[i].1
        },
        forall|k: int| 0 <= k < l.discovered().len() ==> #[trigger] holds_index(l.entries(), k),
{
    let e = l.entries();
    let s = l.slots@;
    let n = s.len();
    assert forall|i: int, j: int| 0 <= i < j < n implies
        (#[trigger] e[i]).1.block_time <= (#[trigger] e[j]).1.block_time
        && (e[i].1.block_time == e[j].1.block_time ==> e[i].0 < e[j].0) by {
        assert(e[i] == (s[i].seq as int, s[i].tx@));
        assert(e[j] == (s[j].seq as int, s[j].tx@));
        assert(precedes(s[i].tx.block_time, s[i].seq as int, s[j].tx.block_time, s[j].seq as int));
    }
    let seqs = e.map_values(|x: (int, TxView)| x.0);
    assert(seqs.no_duplicates()) by {
        assert forall|i: int, j: int| 0 <= i < n && 0 <= j < n && i != j implies seqs[i] != seqs[j] by {
            let (a, b) = if i < j { (i, j) } else { (j, i) };
            assert(precedes(s[a].tx.block_time, s[a].seq as int, s[b].tx.block_time, s[b].seq as int));
            if s[a].seq == s[b].seq {
                assert(l.found@[s[a].seq as int] == s[a].tx@);
                assert(l.found@[s[b].seq as int] == s[b].tx@);
            }
        }
    }
    seqs.unique_seq_to_set();
    let range = vstd::set_lib::set_int_range(0, n as int);
    vstd::set_lib::lemma_int_range(0, n as int);
    assert(seqs.to_set().subset_of(range)) by {
        assert forall|x: int| seqs.to_set().contains(x) implies range.contains(x) by {
            let i = choose|i: int| 0 <= i < seqs.len() && seqs[i] == x;
            assert(seqs[i] == s[i].seq as int);
        }
    }
    vstd::set_lib::lemma_subset_equality(seqs.to_set(), range);
    assert forall|k: int| 0 <= k < l.discovered().len() implies #[trigger] holds_index(e, k) by {
        assert(range.contains(k));
        assert(seqs.to_set().contains(k));
        let i = choose|i: int| 0 <= i < seqs.len() && seqs[i] == k;
        assert(e[i].0 == k);
    }
}

} // verus!
