use address_ledger::aggregator::{Action, Aggregator, LedgerResult, RawTx, SearchPage, PER_PAGE};
use address_ledger::amount::LedgerError;
use address_ledger::config::{
    chains, get_chain_matching_prefix, select_chain, Chain, Chains, SearchRejection,
};
use address_ledger::context::Context;
use address_ledger::events::{Attribute, Pass, RawEvent};
use address_ledger::export::export_csv;

fn transfer_event(sender: &str, recipient: &str, amount: &str) -> RawEvent {
    RawEvent {
        kind: "transfer".to_string(),
        attributes: vec![
            Attribute { key: "sender".to_string(), value: sender.to_string() },
            Attribute { key: "recipient".to_string(), value: recipient.to_string() },
            Attribute { key: "amount".to_string(), value: amount.to_string() },
        ],
    }
}

fn raw(hash: &str, height: u64, events: Vec<RawEvent>) -> RawTx {
    RawTx { hash: hash.to_string(), height, events }
}

/// Runs an aggregation against fixed search results; block time of a height is `height * 100`.
/// Returns the result, the page requests made and the block-time lookups made.
fn run(
    address: &str,
    sent: Vec<RawTx>,
    received: Vec<RawTx>,
) -> (Result<LedgerResult, LedgerError>, Vec<(Pass, u32)>, Vec<u64>) {
    let mut agg = Aggregator::new(address, "denom");
    let mut pages = Vec::new();
    let mut lookups = Vec::new();
    loop {
        let action = match agg.next_action() {
            Ok(a) => a,
            Err(e) => return (Err(e), pages, lookups),
        };
        match action {
            Action::FetchPage { pass, key, value, query, page, per_page } => {
                let expected = if pass == Pass::AsSender { "transfer.sender" } else { "transfer.recipient" };
                assert_eq!(key, expected);
                assert_eq!(value, address);
                assert_eq!(query.to_string(), format!("{} = '{}'", expected, address));
                pages.push((pass, page));
                let all = if pass == Pass::AsSender { &sent } else { &received };
                let from = ((page - 1) as usize) * per_page as usize;
                let to = std::cmp::min(all.len(), from + per_page as usize);
                let txs = if from < all.len() { all[from..to].to_vec() } else { vec![] };
                assert!(agg.awaiting_page());
                if let Err(e) = agg.page_received(SearchPage { txs, total_count: all.len() as u32 }) {
                    return (Err(e), pages, lookups);
                }
            }
            Action::FetchBlockTime { height } => {
                lookups.push(height);
                agg.block_time_received(height, height as i128 * 100);
            }
            Action::Done => return (Ok(agg.finish()), pages, lookups),
        }
    }
}

#[test]
fn empty_result() {
    let (r, pages, lookups) = run("me", vec![], vec![]);
    let r = r.unwrap();
    assert!(r.transactions.is_empty());
    assert_eq!(r.net_amount, "0denom");
    assert_eq!(pages, vec![(Pass::AsSender, 1), (Pass::AsRecipient, 1)]);
    assert!(lookups.is_empty());
}

#[test]
fn two_passes_merge_in_time_order() {
    let tx_both = raw(
        "BOTH",
        7,
        vec![transfer_event("me", "shop", "40denom"), transfer_event("bank", "me", "100denom")],
    );
    let sent = vec![tx_both.clone(), raw("S2", 2, vec![transfer_event("me", "x", "1uatom")])];
    let received = vec![raw("R1", 9, vec![transfer_event("y", "me", "5denom")]), tx_both];
    let (r, pages, lookups) = run("me", sent, received);
    let r = r.unwrap();
    assert_eq!(r.net_amount, "65denom");
    assert_eq!(r.skipped_amounts, vec!["1uatom".to_string()]);
    let order: Vec<(&str, usize)> = r.transactions.iter().map(|t| (t.hash.as_str(), t.transfers.len())).collect();
    assert_eq!(order, vec![("S2", 1), ("BOTH", 1), ("BOTH", 1), ("R1", 1)]);
    // the sender pass found BOTH first: its entry keeps the sent transfer
    assert_eq!(r.transactions[1].transfers[0].recipient, "shop");
    assert_eq!(r.transactions[2].transfers[0].sender, "bank");
    assert_eq!(r.transactions[0].block_time, 200);
    // a height already resolved is not looked up again
    assert_eq!(lookups, vec![7, 2, 9]);
    assert_eq!(pages, vec![(Pass::AsSender, 1), (Pass::AsRecipient, 1)]);
}

#[test]
fn pagination_exhaustiveness() {
    let sent: Vec<RawTx> = (0..25u64).map(|i| raw(&format!("T{}", i), 1000 - i, vec![])).collect();
    let (r, pages, lookups) = run("me", sent, vec![]);
    let r = r.unwrap();
    assert_eq!(r.transactions.len(), 25);
    assert_eq!(
        pages,
        vec![(Pass::AsSender, 1), (Pass::AsSender, 2), (Pass::AsSender, 3), (Pass::AsRecipient, 1)]
    );
    assert_eq!(lookups.len(), 25);
    assert_eq!(r.transactions[0].hash, "T24");
    assert_eq!(PER_PAGE, 10);
}

#[test]
fn denom_mismatch_skip() {
    let received = vec![
        raw("A", 1, vec![transfer_event("x", "me", "100otherdenom")]),
        raw("B", 2, vec![transfer_event("y", "me", "30denom")]),
    ];
    let (r, _, _) = run("me", vec![], received);
    let r = r.unwrap();
    assert_eq!(r.net_amount, "30denom");
    assert_eq!(r.transactions.len(), 2);
    assert_eq!(r.transactions[0].transfers[0].amount, "100otherdenom");
    assert_eq!(r.skipped_amounts, vec!["100otherdenom".to_string()]);
}

#[test]
fn bad_magnitude_aborts() {
    let received = vec![raw("A", 1, vec![transfer_event("x", "me", "18446744073709551616denom")])];
    let (r, _, _) = run("me", vec![], received);
    assert_eq!(r.unwrap_err(), LedgerError::InvalidMagnitude);
}

#[test]
fn non_number_before_the_denom_aborts() {
    let received = vec![
        raw("A", 1, vec![transfer_event("x", "me", "3denom")]),
        raw("B", 2, vec![transfer_event("y", "me", "1.5denom")]),
    ];
    let (r, _, _) = run("me", vec![], received);
    assert_eq!(r.unwrap_err(), LedgerError::InvalidMagnitude);
}

#[test]
fn short_page_is_inconsistent() {
    let mut agg = Aggregator::new("me", "denom");
    assert!(matches!(agg.next_action(), Ok(Action::FetchPage { page: 1, .. })));
    assert_eq!(agg.page_received(SearchPage { txs: vec![], total_count: 3 }), Err(LedgerError::InconsistentPaging));
}

fn chain(id: &str, prefix: &str) -> Chain {
    Chain {
        id: id.to_string(),
        api: format!("http://{}:26657", id),
        prefix: prefix.to_string(),
        denom: "u".to_string() + id,
    }
}

#[test]
fn first_matching_chain_is_chosen() {
    let cs = vec![chain("cosmos", "cosmos"), chain("osmo", "osmo"), chain("cosmos2", "cos")];
    let a = "osmo1xyz".to_string();
    assert_eq!(get_chain_matching_prefix(&a, &cs).unwrap().id, "osmo");
    let b = "cosmos1abc".to_string();
    assert_eq!(get_chain_matching_prefix(&b, &cs).unwrap().id, "cosmos");
    let c = "juno1".to_string();
    assert!(get_chain_matching_prefix(&c, &cs).is_none());
}

#[test]
fn searches_are_validated() {
    let cs = vec![chain("cosmos", "cosmos")];
    let empty = String::new();
    assert_eq!(select_chain(&empty, &cs).unwrap_err(), SearchRejection::EmptyAddress);
    assert_eq!(SearchRejection::EmptyAddress.message(), "Address cannot be empty.");
    let other = "juno1".to_string();
    assert_eq!(select_chain(&other, &cs).unwrap_err(), SearchRejection::UnsupportedPrefix);
    assert_eq!(SearchRejection::UnsupportedPrefix.message(), "Address prefix is not supported.");
    let ok = "cosmos1".to_string();
    assert_eq!(select_chain(&ok, &cs).unwrap().denom, "ucosmos");
}

#[test]
fn chains_are_listed() {
    let config = Chains { chains: vec![chain("cosmos", "cosmos"), chain("osmo", "osmo")] };
    assert_eq!(
        chains(&config),
        "chain-1:\nid:\tcosmos\napi:\thttp://cosmos:26657\nprefix:\tcosmos\n\
         chain-2:\nid:\tosmo\napi:\thttp://osmo:26657\nprefix:\tosmo\n"
    );
    assert_eq!(chains(&Chains { chains: vec![] }), "");
}

#[test]
fn context_constructors() {
    let c = Context::err(Some(("error".to_string(), "bad".to_string())));
    assert_eq!(c.flash, Some(("error".to_string(), "bad".to_string())));
    assert!(c.address.is_none());
    assert!(c.txs.is_empty());
    let n = Context::new(Some("me".to_string()), vec![]);
    assert!(n.flash.is_none());
    assert_eq!(n.address.as_deref(), Some("me"));
}

#[test]
fn csv_has_one_row_per_transfer() {
    let received = vec![raw(
        "H1",
        3,
        vec![transfer_event("a", "me", "5denom"), transfer_event("b", "me", "7denom")],
    )];
    let (r, _, _) = run("me", vec![], received);
    let r = r.unwrap();
    assert_eq!(
        export_csv("me", &r),
        "# searched for address: me, net amount: 12denom\n\
         time,amount,sender,recipient,hash,height\n\
         300,5denom,a,me,H1,3\n\
         300,7denom,b,me,H1,3\n"
    );
}
