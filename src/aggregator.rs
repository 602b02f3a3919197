//! The aggregation of one address: two search passes, block-time lookups and
//! the folding of each found transaction into the ledger and the net.
//!
//! The searches and lookups are outside work; the aggregator only decides.
//! Its caller asks `next_action` what to do, does it, and hands the answer
//! back through `page_received` or `block_time_received`.

use vstd::prelude::*;
use crate::amount::{apply_transfers, format_net, mismatched_of, net_fold, net_text, LedgerError};
use crate::events::{kept_of, kept_transfers, EventView, Pass, RawEvent};
use crate::ledger::{Ledger, Tx, TxView};
use crate::pagination::{after_page, PageCursor, PageStatus};
use tendermint_rpc::query::Query;

verus! {

#[verifier::external_type_specification]
#[verifier::external_body]
pub struct ExQuery(Query);

/// Relies on `tendermint_rpc::query::Query::eq`: the search predicate `key = 'value'`.
/// Nothing is stated of the opaque result; `Action::FetchPage` carries its key and value.
#[verifier::external_body]
fn equality_query(key: &str, value: &str) -> Query {
    Query::eq(key, value)
}

/// Matches asked for on each search page.
pub const PER_PAGE: u8 = 10;

/// A transaction as a search page delivers it.
#[derive(Clone, Debug)]
pub struct RawTx {
    pub hash: String,
    pub height: u64,
    pub events: Vec<RawEvent>,
}

pub struct RawTxView {
    pub hash: Seq<char>,
    pub height: u64,
    pub events: Seq<EventView>,
}

impl View for RawTx {
    type V = RawTxView;

    open spec fn view(&self) -> RawTxView {
        RawTxView { hash: self.hash@, height: self.height, events: self.events@.map_values(|e: RawEvent| e@) }
    }
}

/// One page of a transaction search: its transactions and the total count of matches.
#[derive(Clone, Debug)]
pub struct SearchPage {
    pub txs: Vec<RawTx>,
    pub total_count: u32,
}

/// The outcome of an aggregation: the transactions in block-time order, the
/// net amount, and the kept amounts left out of the net for another denom.
#[derive(Clone, Debug)]
pub struct LedgerResult {
    pub transactions: Vec<Tx>,
    pub net_amount: String,
    pub skipped_amounts: Vec<String>,
}

/// What the caller is to do next.
#[derive(Debug)]
pub enum Action {
    /// Search page `page` (from one) of `query`, `per_page` matches to a
    /// page; `query` is the predicate `key = 'value'`.
    FetchPage { pass: Pass, key: String, value: String, query: Query, page: u32, per_page: u8 },
    /// Look up when the block at `height` was committed.
    FetchBlockTime { height: u64 },
    /// Both passes are over: take the result with `finish`.
    Done,
}

/// The decision of a step, as the contracts speak of it.
pub enum Next {
    Page { pass: Pass, key: Seq<char>, value: Seq<char>, page: u32 },
    BlockTime { height: u64 },
    Finished,
}

pub open spec fn action_is(a: Action, n: Next) -> bool {
    match n {
        Next::Page { pass, key, value, page } => a matches Action::FetchPage { pass: p, key: k, value: v, page: q, per_page: s, .. }
            && p == pass && k@ == key && v@ == value && q == page && s == PER_PAGE,
        Next::BlockTime { height } => a matches Action::FetchBlockTime { height: h } && h == height,
        Next::Finished => a is Done,
    }
}

/// The transaction that a pass makes of a delivered one.
pub open spec fn materialized(pass: Pass, address: Seq<char>, raw: RawTxView, time: i128) -> TxView {
    TxView {
        hash: raw.hash,
        height: raw.height,
        block_time: time,
        transfers: kept_of(pass, address, raw.events),
    }
}

/// The block time known for a height: the first one recorded for it.
pub open spec fn known_time(times: Seq<(u64, i128)>, height: u64) -> Option<i128>
    decreases times.len(),
{
    if times.len() == 0 {
        None
    } else {
        match known_time(times.drop_last(), height) {
            Some(t) => Some(t),
            None => if times.last().0 == height { Some(times.last().1) } else { None },
        }
    }
}

/// The state of an aggregation.
pub struct AggregatorView {
    pub address: Seq<char>,
    pub denom: Seq<char>,
    pub pass: Pass,
    pub cursor: PageCursor,
    /// The current pass has seen every match announced.
    pub pass_done: bool,
    /// Both passes are over.
    pub finished: bool,
    /// Delivered transactions not yet in the ledger, in delivery order.
    pub pending: Seq<RawTxView>,
    pub times: Seq<(u64, i128)>,
    /// The transactions put in the ledger, in the order in which they were found.
    pub discovered: Seq<TxView>,
    pub net: int,
    /// Kept amounts left out of the net for not being in the denom, in order.
    pub skipped: Seq<Seq<char>>,
}

/// The indexed field that a pass searches on.
pub open spec fn query_key_of(pass: Pass) -> Seq<char> {
    match pass {
        Pass::AsSender => "transfer.sender"@,
        Pass::AsRecipient => "transfer.recipient"@,
    }
}

/// Puts the first pending transaction, with its block time, into the ledger and the net.
pub open spec fn absorb(v: AggregatorView, time: i128) -> Result<AggregatorView, LedgerError>
    recommends
        v.pending.len() > 0,
{
    let tx = materialized(v.pass, v.address, v.pending[0], time);
    match net_fold(v.net, v.pass, tx.transfers, v.denom) {
        Ok(n) => Ok(AggregatorView {
            pending: v.pending.drop_first(),
            discovered: v.discovered.push(tx),
            net: n,
            skipped: v.skipped + mismatched_of(tx.transfers, v.denom),
            ..v
        }),
        Err(e) => Err(e),
    }
}

/// Absorbs pending transactions, in order, while their block time is known.
pub open spec fn drain(v: AggregatorView) -> Result<AggregatorView, LedgerError>
    decreases v.pending.len(),
{
    if v.pending.len() == 0 {
        Ok(v)
    } else {
        match known_time(v.times, v.pending[0].height) {
            None => Ok(v),
            Some(t) => match absorb(v, t) {
                Ok(w) => drain(w),
                Err(e) => Err(e),
            },
        }
    }
}

/// What to do once nothing more can be absorbed: look up a block time, ask
/// for the next page, start the recipient pass, or stop.
pub open spec fn decide(v: AggregatorView) -> (AggregatorView, Next) {
    if v.pending.len() > 0 {
        (v, Next::BlockTime { height: v.pending[0].height })
    } else if !v.pass_done {
        (v, Next::Page { pass: v.pass, key: query_key_of(v.pass), value: v.address, page: (v.cursor.pages + 1) as u32 })
    } else if v.pass == Pass::AsSender {
        (AggregatorView {
            pass: Pass::AsRecipient,
            cursor: PageCursor { pages: 0, seen: 0, total: None },
            pass_done: false,
            ..v
        }, Next::Page { pass: Pass::AsRecipient, key: query_key_of(Pass::AsRecipient), value: v.address, page: 1 })
    } else {
        (AggregatorView { finished: true, ..v }, Next::Finished)
    }
}

/// The aggregation of one address on one chain.
pub struct Aggregator {
    address: String,
    denom: String,
    pass: Pass,
    cursor: PageCursor,
    pass_done: bool,
    finished: bool,
    pending: Vec<RawTx>,
    times: Vec<(u64, i128)>,
    ledger: Ledger,
    net: i128,
    skipped: Vec<String>,
}

impl View for Aggregator {
    type V = AggregatorView;

    closed spec fn view(&self) -> AggregatorView {
        AggregatorView {
            address: self.address@,
            denom: self.denom@,
            pass: self.pass,
            cursor: self.cursor,
            pass_done: self.pass_done,
            finished: self.finished,
            pending: self.pending@.map_values(|t: RawTx| t@),
            times: self.times@,
            discovered: self.ledger.discovered(),
            net: self.net as int,
            skipped: self.skipped@.map_values(|a: String| a@),
        }
    }
}

impl Aggregator {
    pub closed spec fn wf(&self) -> bool {
        &&& self.ledger.wf()
        &&& !self.pass_done ==> self.cursor.wf()
    }

    /// The ledger so far, in its order, with discovery indices.
    pub closed spec fn ledger(&self) -> Ledger {
        self.ledger
    }

    /// The ledger of a well-formed aggregation is well formed and holds the
    /// transactions found so far, so `lemma_ledger_order` applies to it and,
    /// through `finish`, to the result.
    pub proof fn lemma_ledger_wf(&self)
        requires
            self.wf(),
        ensures
            self.ledger().wf(),
            self.ledger().discovered() == self@.discovered,
    {
    }

    /// An aggregation of `address` against the chain's `denom`, before its first page.
    pub fn new(address: &str, denom: &str) -> (r: Aggregator)
        ensures
            r.wf(),
            r@ == (AggregatorView {
                address: address@,
                denom: denom@,
                pass: Pass::AsSender,
                cursor: PageCursor { pages: 0, seen: 0, total: None },
                pass_done: false,
                finished: false,
                pending: Seq::empty(),
                times: Seq::empty(),
                discovered: Seq::empty(),
                net: 0,
                skipped: Seq::empty(),
            }),
    {
        let a = Aggregator {
            address: String::from_str(address),
            denom: String::from_str(denom),
            pass: Pass::AsSender,
            cursor: PageCursor::start(),
            pass_done: false,
            finished: false,
            pending: Vec::new(),
            times: Vec::new(),
            ledger: Ledger::new(),
            net: 0,
            skipped: Vec::new(),
        };
        assert(a@.pending =~= Seq::<RawTxView>::empty());
        assert(a@.skipped =~= Seq::<Seq<char>>::empty());
        a
    }

    /// Whether the aggregation waits for a search page.
    pub fn awaiting_page(&self) -> (r: bool)
        ensures
            r == (self@.pending.len() == 0 && !self@.pass_done),
    {
        self.pending.len() == 0 && !self.pass_done
    }

    /// The block time recorded for a height, if any.
    fn time_for(&self, height: u64) -> (r: Option<i128>)
        ensures
            r == known_time(self.times@, height),
    {
        let mut i: usize = 0;
        while i < self.times.len()
            invariant
                i <= self.times@.len(),
                known_time(self.times@.subrange(0, i as int), height) is None,
            decreases self.times@.len() - i,
        {
            let ghost s = self.times@.subrange(0, i + 1);
            assert(s.drop_last() == self.times@.subrange(0, i as int));
            if self.times[i].0 == height {
                let t = self.times[i].1;
                proof {
                    lemma_known_time_prefix(self.times@, height, i + 1);
                }
                return Some(t);
            }
            i = i + 1;
        }
        assert(self.times@.subrange(0, self.times@.len() as int) == self.times@);
        None
    }

    /// The request for a page of the current pass.
    fn fetch_page(&self, page: u32) -> (r: Action)
        ensures
            action_is(r, Next::Page { pass: self.pass, key: query_key_of(self.pass), value: self.address@, page }),
    {
        let key = String::from_str(self.pass.query_key());
        let value = self.address.clone();
        let query = equality_query(key.as_str(), value.as_str());
        Action::FetchPage { pass: self.pass, key, value, query, page, per_page: PER_PAGE }
    }

    /// Absorbs what can be absorbed and says what to do next.
    pub fn next_action(&mut self) -> (r: Result<Action, LedgerError>)
        requires
            old(self).wf(),
        ensures
            match drain(old(self)@) {
                Err(e) => r == Err::<Action, LedgerError>(e),
                Ok(d) => {
                    &&& r is Ok
                    &&& final(self).wf()
                    &&& final(self)@ == decide(d).0
                    &&& action_is(r->Ok_0, decide(d).1)
                },
            },
    {
        while self.pending.len() > 0
            invariant
                self.wf(),
                drain(self@) == drain(old(self)@),
            ensures
                self.wf(),
                drain(self@) == drain(old(self)@),
                self@.pending.len() == 0 || known_time(self@.times, self@.pending[0].height) is None,
            decreases self.pending@.len(),
        {
            let h = self.pending[0].height;
            assert(self@.pending[0] == self.pending@[0]@);
            let t = match self.time_for(h) {
                Some(t) => t,
                None => break,
            };
            let ghost before = self@;
            let raw = self.pending.remove(0);
            assert(raw@ == before.pending[0]);
            assert(self.pending@.map_values(|t: RawTx| t@) =~= before.pending.drop_first());
            let transfers = kept_transfers(self.pass, self.address.as_str(), &raw.events);
            let net = apply_transfers(self.net, self.pass, &transfers, self.denom.as_str(), &mut self.skipped)?;
            let tx = Tx { hash: raw.hash, height: raw.height, block_time: t, transfers };
            assert(tx@ == materialized(before.pass, before.address, before.pending[0], t));
            self.ledger.insert(tx);
            self.net = net;
            assert(self@.discovered == before.discovered.push(tx@));
            assert(self@.pending == before.pending.drop_first());
            assert(self@ == absorb(before, t)->Ok_0);
        }
        assert(drain(self@) == Ok::<AggregatorView, LedgerError>(self@));
        if self.pending.len() > 0 {
            return Ok(Action::FetchBlockTime { height: self.pending[0].height });
        }
        if !self.pass_done {
            let page = self.cursor.next_page();
            return Ok(self.fetch_page(page));
        }
        match self.pass {
            Pass::AsSender => {
                self.pass = Pass::AsRecipient;
                self.cursor = PageCursor::start();
                self.pass_done = false;
                Ok(self.fetch_page(1))
            },
            Pass::AsRecipient => {
                self.finished = true;
                Ok(Action::Done)
            },
        }
    }

    /// Takes in a search page of the current pass.
    pub fn page_received(&mut self, page: SearchPage) -> (r: Result<(), LedgerError>)
        requires
            old(self).wf(),
            old(self)@.pending.len() == 0,
            !old(self)@.pass_done,
        ensures
            final(self).wf(),
            ({
                let (c, st) = after_page(old(self)@.cursor, page.txs@.len(), page.total_count);
                if st == PageStatus::Inconsistent {
                    &&& r == Err::<(), LedgerError>(LedgerError::InconsistentPaging)
                    &&& final(self)@ == old(self)@
                } else {
                    &&& r == Ok::<(), LedgerError>(())
                    &&& final(self)@ == (AggregatorView {
                        cursor: c,
                        pass_done: st == PageStatus::Complete,
                        pending: page.txs@.map_values(|t: RawTx| t@),
                        ..old(self)@
                    })
                }
            }),
    {
        let mut cursor = self.cursor;
        let st = cursor.record(page.txs.len(), page.total_count);
        if st == PageStatus::Inconsistent {
            return Err(LedgerError::InconsistentPaging);
        }
        self.cursor = cursor;
        self.pass_done = st == PageStatus::Complete;
        self.pending = page.txs;
        Ok(())
    }

    /// Records when the block at `height` was committed, unless that is already known.
    pub fn block_time_received(&mut self, height: u64, time: i128)
        requires
            old(self).wf(),
        ensures
            final(self).wf(),
            final(self)@ == (AggregatorView {
                times: if known_time(old(self)@.times, height) is None {
                    old(self)@.times.push((height, time))
                } else {
                    old(self)@.times
                },
                ..old(self)@
            }),
    {
        if self.time_for(height).is_none() {
            let ghost before = self.times@;
            self.times.push((height, time));
            assert(self.times@ == before.push((height, time)));
        }
    }

    /// The ledger in block-time order and the net amount written with the denom.
    pub fn finish(self) -> (r: LedgerResult)
        requires
            self.wf(),
        ensures
            r.transactions@.map_values(|t: Tx| t@) == self.ledger().entries().map_values(|e: (int, TxView)| e.1),
            r.net_amount@ == net_text(self@.net, self@.denom),
            r.skipped_amounts@.map_values(|a: String| a@) == self@.skipped,
    {
        let net_amount = format_net(self.net, self.denom.as_str());
        LedgerResult { transactions: self.ledger.into_txs(), net_amount, skipped_amounts: self.skipped }
    }
}

/// A known time stays known, and unchanged, when more times are recorded.
proof fn lemma_known_time_prefix(times: Seq<(u64, i128)>, height: u64, k: int)
    requires
        0 < k <= times.len(),
        known_time(times.subrange(0, k - 1), height) is None,
        times[k - 1].0 == height,
    ensures
        known_time(times, height) == Some(times[k - 1].1),
    decreases times.len() - k,
{
    let s = times.subrange(0, k);
    assert(s.drop_last() == times.subrange(0, k - 1));
    if k == times.len() {
        assert(s == times);
    } else {
        assert(times.subrange(0, k + 1).drop_last() == s);
        lemma_known_time_step(times, height, k + 1, times[k - 1].1);
    }
}

proof fn lemma_known_time_step(times: Seq<(u64, i128)>, height: u64, k: int, t: i128)
    requires
        0 < k <= times.len(),
        known_time(times.subrange(0, k - 1), height) == Some(t),
    ensures
        known_time(times, height) == Some(t),
    decreases times.len() - k,
{
    assert(times.subrange(0, k).drop_last() == times.subrange(0, k - 1));
    if k == times.len() {
        assert(times.subrange(0, k) == times);
    } else {
        lemma_known_time_step(times, height, k + 1, t);
    }
}

} // verus!
