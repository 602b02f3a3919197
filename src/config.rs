//! The chain registry: which chain an address belongs to, and a plain-text
//! listing of the registry.

use vstd::prelude::*;
use crate::decimal::{nat_string, nat_text};

verus! {

/// A chain that addresses can be looked up on.
#[derive(Clone, Debug)]
pub struct Chain {
    pub id: String,
    /// The endpoint of its transaction-search RPC.
    pub api: String,
    /// The prefix that its account addresses start with.
    pub prefix: String,
    /// The unit that its transfer amounts carry as a suffix.
    pub denom: String,
}

/// The chains the service knows, in the order of its configuration.
#[derive(Clone, Debug)]
pub struct Chains {
    pub chains: Vec<Chain>,
}

pub open spec fn starts_with(s: Seq<char>, prefix: Seq<char>) -> bool {
    prefix.len() <= s.len() && s.subrange(0, prefix.len() as int) == prefix
}

/// The index of the first chain whose prefix the address starts with.
pub open spec fn first_matching(address: Seq<char>, chains: Seq<Chain>) -> Option<int>
    decreases chains.len(),
{
    if chains.len() == 0 {
        None
    } else {
        match first_matching(address, chains.drop_last()) {
            Some(i) => Some(i),
            None => if starts_with(address, chains.last().prefix@) {
                Some(chains.len() - 1)
            } else {
                None
            },
        }
    }
}

/// Whether `s` starts with `prefix`.
pub fn has_prefix(s: &str, prefix: &str) -> (r: bool)
    ensures
        r == starts_with(s@, prefix@),
{
    let n = s.unicode_len();
    let k = prefix.unicode_len();
    if k > n {
        return false;
    }
    let mut i: usize = 0;
    while i < k
        invariant
            n == s@.len(),
            k == prefix@.len(),
            k <= n,
            i <= k,
            forall|j: int| 0 <= j < i ==> s@[j] == prefix@[j],
        decreases k - i,
    {
        if s.get_char(i) != prefix.get_char(i) {
            assert(s@.subrange(0, k as int)[i as int] != prefix@[i as int]);
            return false;
        }
        i = i + 1;
    }
    assert(s@.subrange(0, k as int) =~= prefix@);
    true
}

/// The first chain, in configuration order, whose prefix the address starts with.
pub fn get_chain_matching_prefix<'a>(address: &'a String, chains: &'a Vec<Chain>) -> (r: Option<&'a Chain>)
    ensures
        match first_matching(address@, chains@) {
            Some(i) => r == Some(&chains@[i]),
            None => r is None,
        },
{
    let mut i: usize = 0;
    while i < chains.len()
        invariant
            i <= chains@.len(),
            first_matching(address@, chains@.subrange(0, i as int)) is None,
        decreases chains@.len() - i,
    {
        assert(chains@.subrange(0, i + 1).drop_last() == chains@.subrange(0, i as int));
        if has_prefix(address.as_str(), chains[i].prefix.as_str()) {
            proof {
                lemma_first_matching_found(address@, chains@, i as int);
            }
            return Some(&chains[i]);
        }
        i = i + 1;
    }
    assert(chains@.subrange(0, chains@.len() as int) == chains@);
    None
}

proof fn lemma_first_matching_found(address: Seq<char>, chains: Seq<Chain>, i: int)
    requires
        0 <= i < chains.len(),
        first_matching(address, chains.subrange(0, i)) is None,
        starts_with(address, chains[i].prefix@),
    ensures
        first_matching(address, chains) == Some(i),
{
    assert(chains.subrange(0, i + 1).drop_last() == chains.subrange(0, i));
    lemma_first_matching_extends(address, chains, i + 1, i);
}

proof fn lemma_first_matching_extends(address: Seq<char>, chains: Seq<Chain>, k: int, i: int)
    requires
        0 < k <= chains.len(),
        first_matching(address, chains.subrange(0, k)) == Some(i),
    ensures
        first_matching(address, chains) == Some(i),
    decreases chains.len() - k,
{
    if k == chains.len() {
        assert(chains.subrange(0, k) == chains);
    } else {
        assert(chains.subrange(0, k + 1).drop_last() == chains.subrange(0, k));
        lemma_first_matching_extends(address, chains, k + 1, i);
    }
}

/// Why a searched address is turned away before any lookup.
#[derive(Clone, Copy, Debug, PartialEq, Eq, Structural)]
pub enum SearchRejection {
    EmptyAddress,
    UnsupportedPrefix,
}

impl SearchRejection {
    /// The message shown to the person who searched.
    pub fn message(&self) -> (r: &'static str)
        ensures
            r@ == match self {
                SearchRejection::EmptyAddress => "Address cannot be empty."@,
                SearchRejection::UnsupportedPrefix => "Address prefix is not supported."@,
            },
    {
        match self {
            SearchRejection::EmptyAddress => "Address cannot be empty.",
            SearchRejection::UnsupportedPrefix => "Address prefix is not supported.",
        }
    }
}

/// The chain that a searched address is to be looked up on: an empty address
/// is rejected first, then one that no chain's prefix begins.
pub fn select_chain<'a>(address: &'a String, chains: &'a Vec<Chain>) -> (r: Result<&'a Chain, SearchRejection>)
    ensures
        address@.len() == 0 ==> r == Err::<&Chain, SearchRejection>(SearchRejection::EmptyAddress),
        address@.len() > 0 ==> match first_matching(address@, chains@) {
            Some(i) => r == Ok::<&Chain, SearchRejection>(&chains@[i]),
            None => r == Err::<&Chain, SearchRejection>(SearchRejection::UnsupportedPrefix),
        },
{
    if address.as_str().unicode_len() == 0 {
        return Err(SearchRejection::EmptyAddress);
    }
    match get_chain_matching_prefix(address, chains) {
        Some(c) => Ok(c),
        None => Err(SearchRejection::UnsupportedPrefix),
    }
}

/// The listing of one chain, numbered from one.
pub open spec fn chain_text(number: nat, c: Chain) -> Seq<char> {
    "chain-"@ + nat_text(number) + ":\n"@
        + "id:\t"@ + c.id@ + "\n"@
        + "api:\t"@ + c.api@ + "\n"@
        + "prefix:\t"@ + c.prefix@ + "\n"@
}

/// The listing of a run of chains, numbered from one.
pub open spec fn chains_text(cs: Seq<Chain>) -> Seq<char>
    decreases cs.len(),
{
    if cs.len() == 0 {
        Seq::empty()
    } else {
        chains_text(cs.drop_last()) + chain_text(cs.len(), cs.last())
    }
}

/// Lists the configured chains: a numbered header, then the id, api and prefix of each.
pub fn chains(config: &Chains) -> (r: String)
    ensures
        r@ == chains_text(config.chains@),
{
    let cs = &config.chains;
    let mut out = String::new();
    let mut i: usize = 0;
    while i < cs.len()
        invariant
            i <= cs@.len(),
            out@ == chains_text(cs@.subrange(0, i as int)),
        decreases cs@.len() - i,
    {
        let c = &cs[i];
        out.append("chain-");
        let number = nat_string(i as u128 + 1);
        out.append(number.as_str());
        out.append(":\n");
        out.append("id:\t");
        out.append(c.id.as_str());
        out.append("\n");
        out.append("api:\t");
        out.append(c.api.as_str());
        out.append("\n");
        out.append("prefix:\t");
        out.append(c.prefix.as_str());
        out.append("\n");
        let ghost s = cs@.subrange(0, i + 1);
        assert(s.drop_last() == cs@.subrange(0, i as int));
        assert(s.last() == *c);
        assert(out@ =~= chains_text(s));
        i = i + 1;
    }
    assert(cs@.subrange(0, cs@.len() as int) == cs@);
    out
}

} // verus!
