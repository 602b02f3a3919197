//! What the search page shows: a flash message, the searched address and its ledger.

use vstd::prelude::*;
use crate::ledger::Tx;

verus! {

/// The page state: a flash message (kind and text), the address searched, and its transactions.
#[derive(Clone, Debug)]
pub struct Context {
    pub flash: Option<(String, String)>,
    pub address: Option<String>,
    pub txs: Vec<Tx>,
}

impl Context {
    /// A page that shows only a flash message, if any.
    pub fn err(flash: Option<(String, String)>) -> (r: Context)
        ensures
            r.flash == flash,
            r.address is None,
            r.txs@.len() == 0,
    {
        Context { flash, address: None, txs: Vec::new() }
    }

    /// A page that shows the ledger of a searched address.
    pub fn new(address: Option<String>, txs: Vec<Tx>) -> (r: Context)
        ensures
            r.flash is None,
            r.address == address,
            r.txs == txs,
    {
        Context { flash: None, address, txs }
    }
}

} // verus!
