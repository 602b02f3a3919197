use address_ledger::ledger::{Ledger, Tx};
use address_ledger::pagination::{PageCursor, PageStatus};

fn tx(hash: &str, time: i128) -> Tx {
    Tx { hash: hash.to_string(), height: 1, block_time: time, transfers: vec![] }
}

#[test]
fn ledger_orders_by_time_then_discovery() {
    let mut l = Ledger::new();
    l.insert(tx("a", 5));
    l.insert(tx("b", 3));
    l.insert(tx("c", 5));
    l.insert(tx("d", 1));
    l.insert(tx("e", 3));
    assert_eq!(l.len(), 5);
    let hashes: Vec<String> = l.into_txs().into_iter().map(|t| t.hash).collect();
    assert_eq!(hashes, vec!["d", "b", "e", "a", "c"]);
}

#[test]
fn pagination_asks_for_ceil_pages() {
    // 25 matches, 10 to a page.
    let mut c = PageCursor::start();
    let mut requests = 0;
    let mut collected = 0;
    let mut status = PageStatus::More;
    while status == PageStatus::More {
        let page = c.next_page();
        requests += 1;
        let on_page = std::cmp::min(10, 25 - (page as usize - 1) * 10);
        collected += on_page;
        status = c.record(on_page, 25);
    }
    assert_eq!(status, PageStatus::Complete);
    assert_eq!(requests, 3);
    assert_eq!(collected, 25);
    assert_eq!(c.seen, 25);
    assert_eq!(c.pages, 3);
}

#[test]
fn only_the_first_total_counts() {
    let mut c = PageCursor::start();
    assert_eq!(c.record(10, 12), PageStatus::More);
    assert_eq!(c.record(2, 40), PageStatus::Complete);
    assert_eq!(c.total, Some(12));
}

#[test]
fn empty_first_page_of_nothing_completes() {
    let mut c = PageCursor::start();
    assert_eq!(c.record(0, 0), PageStatus::Complete);
}

#[test]
fn inconsistent_pages_are_reported() {
    let mut c = PageCursor::start();
    assert_eq!(c.record(10, 15), PageStatus::More);
    assert_eq!(c.record(0, 15), PageStatus::Inconsistent);
    assert_eq!(c.record(6, 15), PageStatus::Inconsistent);
    assert_eq!(c.pages, 1);
    assert_eq!(c.seen, 10);
}
