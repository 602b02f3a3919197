//! The CSV rendering of a ledger: one row per transaction and kept transfer.

use vstd::prelude::*;
use crate::aggregator::LedgerResult;
use crate::decimal::{int_string, int_text, nat_string, nat_text};
use crate::events::{Transfer, TransferView};
use crate::ledger::{Tx, TxView};

verus! {

/// One row: time, amount, sender, recipient, hash, height.
pub open spec fn row_text(tx: TxView, t: TransferView) -> Seq<char> {
    int_text(tx.block_time as int) + ","@ + t.amount + ","@ + t.sender + ","@ + t.recipient
        + ","@ + tx.hash + ","@ + nat_text(tx.height as nat) + "\n"@
}

/// The rows of one transaction, one per transfer in `ts`.
pub open spec fn tx_rows(tx: TxView, ts: Seq<TransferView>) -> Seq<char>
    decreases ts.len(),
{
    if ts.len() == 0 {
        Seq::empty()
    } else {
        tx_rows(tx, ts.drop_last()) + row_text(tx, ts.last())
    }
}

/// The rows of a run of transactions, in order.
pub open spec fn ledger_rows(txs: Seq<TxView>) -> Seq<char>
    decreases txs.len(),
{
    if txs.len() == 0 {
        Seq::empty()
    } else {
        ledger_rows(txs.drop_last()) + tx_rows(txs.last(), txs.last().transfers)
    }
}

/// The whole file: a header line with the address and the net amount, the
/// column names, then the rows.
pub open spec fn csv_text(address: Seq<char>, net_amount: Seq<char>, txs: Seq<TxView>) -> Seq<char> {
    "# searched for address: "@ + address + ", net amount: "@ + net_amount + "\n"@
        + "time,amount,sender,recipient,hash,height\n"@ + ledger_rows(txs)
}

fn append_row(out: &mut String, tx: &Tx, t: &Transfer)
    ensures
        final(out)@ == old(out)@ + row_text(tx@, t@),
{
    let time = int_string(tx.block_time);
    let height = nat_string(tx.height as u128);
    out.append(time.as_str());
    out.append(",");
    out.append(t.amount.as_str());
    out.append(",");
    out.append(t.sender.as_str());
    out.append(",");
    out.append(t.recipient.as_str());
    out.append(",");
    out.append(tx.hash.as_str());
    out.append(",");
    out.append(height.as_str());
    out.append("\n");
    assert(final(out)@ =~= old(out)@ + row_text(tx@, t@));
}

/// Renders a ledger as CSV for the address it was aggregated for.
pub fn export_csv(address: &str, result: &LedgerResult) -> (r: String)
    ensures
        r@ == csv_text(address@, result.net_amount@, result.transactions@.map_values(|t: Tx| t@)),
{
    let txs = &result.transactions;
    let ghost tv = txs@.map_values(|t: Tx| t@);
    let mut out = String::new();
    out.append("# searched for address: ");
    out.append(address);
    out.append(", net amount: ");
    out.append(result.net_amount.as_str());
    out.append("\n");
    out.append("time,amount,sender,recipient,hash,height\n");
    let ghost head = out@;
    let mut i: usize = 0;
    while i < txs.len()
        invariant
            i <= txs@.len(),
            tv == txs@.map_values(|t: Tx| t@),
            out@ == head + ledger_rows(tv.subrange(0, i as int)),
        decreases txs@.len() - i,
    {
        let tx = &txs[i];
        let ghost ts = tx@.transfers;
        let ghost mid = out@;
        let mut j: usize = 0;
        while j < tx.transfers.len()
            invariant
                j <= tx.transfers@.len(),
                ts == tx.transfers@.map_values(|t: Transfer| t@),
                out@ == mid + tx_rows(tx@, ts.subrange(0, j as int)),
            decreases tx.transfers@.len() - j,
        {
            assert(ts.subrange(0, j + 1).drop_last() == ts.subrange(0, j as int));
            assert(ts.subrange(0, j + 1).last() == tx.transfers@[j as int]@);
            append_row(&mut out, tx, &tx.transfers[j]);
            assert(out@ =~= mid + tx_rows(tx@, ts.subrange(0, j + 1)));
            j = j + 1;
        }
        assert(ts.subrange(0, ts.len() as int) == ts);
        let ghost s = tv.subrange(0, i + 1);
        assert(s.drop_last() == tv.subrange(0, i as int));
        assert(s.last() == tx@);
        assert(out@ =~= head + ledger_rows(s));
        i = i + 1;
    }
    assert(tv.subrange(0, tv.len() as int) == tv);
    assert(out@ =~= csv_text(address@, result.net_amount@, tv));
    out
}

} // verus!
