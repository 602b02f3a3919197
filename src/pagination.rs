//! Paging through a search: which page to ask for next, and when a pass has
//! seen every match that the first page announced.

use vstd::prelude::*;

verus! {

/// Where a pass stands after a page.
#[derive(Clone, Copy, Debug, PartialEq, Eq, Structural)]
pub enum PageStatus {
    /// Fewer matches seen than announced: ask for the next page.
    More,
    /// Exactly the announced number of matches seen: the pass is over.
    Complete,
    /// A page came back empty, or took the count past the announced total.
    Inconsistent,
}

/// The progress of one pass: pages received, matches seen, and the total
/// count that the first page announced.
#[derive(Clone, Copy, Debug, PartialEq, Eq, Structural)]
pub struct PageCursor {
    pub pages: u32,
    pub seen: u32,
    pub total: Option<u32>,
}

/// The cursor and status after a page that delivered `delivered` matches and
/// announced `total_count`; only the first page's announcement counts.
pub open spec fn after_page(c: PageCursor, delivered: nat, total_count: u32) -> (PageCursor, PageStatus) {
    let total = match c.total {
        Some(t) => t,
        None => total_count,
    };
    let seen = c.seen + delivered;
    if seen == total {
        (PageCursor { pages: (c.pages + 1) as u32, seen: seen as u32, total: Some(total) }, PageStatus::Complete)
    } else if seen > total || delivered == 0 {
        (c, PageStatus::Inconsistent)
    } else {
        (PageCursor { pages: (c.pages + 1) as u32, seen: seen as u32, total: Some(total) }, PageStatus::More)
    }
}

impl PageCursor {
    /// A cursor that may ask for another page: every page so far brought at
    /// least one match, and fewer matches were seen than announced.
    pub open spec fn wf(&self) -> bool {
        &&& self.pages <= self.seen
        &&& (self.pages == 0) == (self.total is None)
        &&& self.total is None ==> self.seen == 0
        &&& self.total is Some ==> self.seen < self.total.unwrap()
    }

    /// The cursor before the first page.
    pub fn start() -> (r: PageCursor)
        ensures
            r == (PageCursor { pages: 0, seen: 0, total: None }),
            r.wf(),
    {
        PageCursor { pages: 0, seen: 0, total: None }
    }

    /// The number of the page to ask for next; pages count from one.
    pub fn next_page(&self) -> (r: u32)
        requires
            self.wf(),
        ensures
            r == self.pages + 1,
    {
        self.pages + 1
    }

    /// Takes in one page's size and announced total.
    pub fn record(&mut self, delivered: usize, total_count: u32) -> (r: PageStatus)
        requires
            old(self).wf(),
        ensures
            (*final(self), r) == after_page(*old(self), delivered as nat, total_count),
            r == PageStatus::More ==> final(self).wf(),
    {
        let total = match self.total {
            Some(t) => t,
            None => total_count,
        };
        let room = total - self.seen;
        if delivered as u64 == room as u64 {
            self.pages = self.pages + 1;
            self.seen = total;
            self.total = Some(total);
            PageStatus::Complete
        } else if delivered as u64 > room as u64 || delivered == 0 {
            PageStatus::Inconsistent
        } else {
            self.pages = self.pages + 1;
            self.seen = self.seen + delivered as u32;
            self.total = Some(total);
            PageStatus::More
        }
    }
}

/// The number of matches that a server holding `n` matches puts on page `k`
/// (counted from one) when it serves pages of `p`.
pub open spec fn served(n: nat, p: nat, k: nat) -> nat {
    if k * p <= n {
        p
    } else if (k - 1) * p < n {
        (n - (k - 1) * p) as nat
    } else {
        0
    }
}

/// A pass against such a server after `k` pages: asks for no page once the
/// status is no longer `More`.
pub open spec fn pass_after(n: u32, p: nat, k: nat) -> (PageCursor, PageStatus)
    decreases k,
{
    if k == 0 {
        (PageCursor { pages: 0, seen: 0, total: None }, PageStatus::More)
    } else {
        let (c, st) = pass_after(n, p, (k - 1) as nat);
        if st == PageStatus::More {
            after_page(c, served(n as nat, p, k), n)
        } else {
            (c, st)
        }
    }
}

/// The number of pages of size `p` that `n` matches fill, the last one perhaps in part.
pub open spec fn pages_for(n: nat, p: nat) -> nat {
    ((n + p - 1) as nat / p) as nat
}

proof fn lemma_pages_for_bounds(n: nat, p: nat)
    requires
        n >= 1,
        p >= 1,
    ensures
        pages_for(n, p) >= 1,
        (pages_for(n, p) - 1) * p < n,
        n <= pages_for(n, p) * p,
{
    let k = pages_for(n, p);
    let q = (n + p - 1) as nat;
    assert(k * p <= q && q < k * p + p) by (nonlinear_arith)
        requires k == q / p, p >= 1;
    assert((k - 1) * p == k * p - p) by (nonlinear_arith);
    assert(k >= 1) by (nonlinear_arith)
        requires k * p + p > q, q >= p, p >= 1;
}

/// A server that holds `n >= 1` matches and serves them `p` to a page is asked
/// for exactly `pages_for(n, p)` pages: the status stays `More` before the
/// last of them, is `Complete` after it, and by then exactly `n` matches were seen.
pub proof fn lemma_pagination_exhaustive(n: u32, p: u8)
    requires
        n >= 1,
        p >= 1,
    ensures
        forall|k: nat| 1 <= k < pages_for(n as nat, p as nat) ==>
            (#[trigger] pass_after(n, p as nat, k)).1 == PageStatus::More,
        pass_after(n, p as nat, pages_for(n as nat, p as nat)).1 == PageStatus::Complete,
        pass_after(n, p as nat, pages_for(n as nat, p as nat)).0.seen == n,
        pass_after(n, p as nat, pages_for(n as nat, p as nat)).0.pages == pages_for(n as nat, p as nat),
{
    let last = pages_for(n as nat, p as nat);
    lemma_pages_for_bounds(n as nat, p as nat);
    assert forall|k: nat| 1 <= k < last implies (#[trigger] pass_after(n, p as nat, k)).1 == PageStatus::More by {
        lemma_pass_prefix(n, p as nat, k, last);
    }
    lemma_pass_prefix(n, p as nat, (last - 1) as nat, last);
    let (c, st) = pass_after(n, p as nat, (last - 1) as nat);
    assert(served(n as nat, p as nat, last) == n - (last - 1) * p) by (nonlinear_arith)
        requires
            (last - 1) * p < n,
            n <= last * p,
            last >= 1;
    assert(last - 1 <= (last - 1) * p) by (nonlinear_arith)
        requires p >= 1, last >= 1;
    assert(pass_after(n, p as nat, last) == after_page(c, served(n as nat, p as nat, last), n));
}

/// Before the last page, a pass has seen full pages only.
proof fn lemma_pass_prefix(n: u32, p: nat, k: nat, last: nat)
    requires
        p >= 1,
        p <= 255,
        k < last,
        last == pages_for(n as nat, p),
        (last - 1) * p < n,
        n <= last * p,
    ensures
        pass_after(n, p, k) == (PageCursor {
            pages: k as u32,
            seen: (k * p) as u32,
            total: if k == 0 { None } else { Some(n) },
        }, PageStatus::More),
    decreases k,
{
    if k > 0 {
        lemma_pass_prefix(n, p, (k - 1) as nat, last);
        assert(k * p <= (last - 1) * p) by (nonlinear_arith)
            requires k <= last - 1, p >= 1;
        assert((k - 1) * p + p == k * p) by (nonlinear_arith);
        assert(k <= k * p) by (nonlinear_arith)
            requires p >= 1;
        assert(served(n as nat, p, k) == p);
    }
}

} // verus!
