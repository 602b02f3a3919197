//! Amounts: a magnitude followed by the chain's denom, and the signed net
//! balance that kept transfers add up to. An amount whose unit is not the
//! chain's denom is skipped and recorded; one in the chain's denom must have a
//! whole number before it.

use vstd::prelude::*;
use crate::decimal::{int_string, int_text, magnitude_of, parse_magnitude};
use crate::events::{Pass, Transfer, TransferView};

verus! {

/// How an amount text reads against the chain's denom.
#[derive(Clone, Copy, Debug, PartialEq, Eq, Structural)]
pub enum AmountParse {
    /// The amount's unit is not the chain's denom: it is left out of the net.
    DenomMismatch,
    /// The amount is in the chain's denom, but what precedes the denom is not
    /// a whole number of digits that fits in a `u64`.
    BadMagnitude,
    Magnitude(u64),
}

/// Why an aggregation stopped.
#[derive(Clone, Copy, Debug, PartialEq, Eq, Structural)]
pub enum LedgerError {
    /// An amount in the chain's denom had something before it that is no whole number.
    InvalidMagnitude,
    /// The net balance left the range of an `i128`.
    NetOverflow,
    /// A search page disagreed with the total count that the first page reported.
    InconsistentPaging,
}

pub open spec fn ends_with(s: Seq<char>, suffix: Seq<char>) -> bool {
    suffix.len() <= s.len() && s.subrange(s.len() - suffix.len(), s.len() as int) == suffix
}

pub open spec fn is_letter(c: char) -> bool {
    ('a' <= c && c <= 'z') || ('A' <= c && c <= 'Z')
}

/// The characters that a coin's unit is written with.
pub open spec fn is_unit_char(c: char) -> bool {
    is_letter(c) || ('0' <= c && c <= '9') || c == '/' || c == ':' || c == '.' || c == '_' || c == '-'
}

/// Whether the run of unit characters at the end of `s` holds a letter.
pub open spec fn unit_run_has_letter(s: Seq<char>) -> bool
    decreases s.len(),
{
    if s.len() == 0 || !is_unit_char(s.last()) {
        false
    } else {
        is_letter(s.last()) || unit_run_has_letter(s.drop_last())
    }
}

/// An amount is in the chain's denom when it ends with the denom and the
/// denom is not merely the tail of a longer unit: no letter stands in the run
/// of unit characters right before it (`100otherdenom` is in `otherdenom`).
pub open spec fn in_denom(amount: Seq<char>, denom: Seq<char>) -> bool {
    ends_with(amount, denom) && !unit_run_has_letter(amount.subrange(0, amount.len() - denom.len()))
}

/// An amount is read by stripping the chain's denom from its end: one that is
/// not in the denom is a mismatch; otherwise what precedes the denom must be a
/// whole number of digits that fits in a `u64`.
pub open spec fn amount_parse_of(amount: Seq<char>, denom: Seq<char>) -> AmountParse {
    if !in_denom(amount, denom) {
        AmountParse::DenomMismatch
    } else {
        match magnitude_of(amount.subrange(0, amount.len() - denom.len())) {
            Some(m) => AmountParse::Magnitude(m),
            None => AmountParse::BadMagnitude,
        }
    }
}

/// The signed effect of a magnitude on the net: received amounts add, sent ones subtract.
pub open spec fn signed(pass: Pass, m: u64) -> int {
    match pass {
        Pass::AsSender => -(m as int),
        Pass::AsRecipient => m as int,
    }
}

pub open spec fn fits_i128(n: int) -> bool {
    i128::MIN <= n <= i128::MAX
}

/// The net after one transfer's amount.
pub open spec fn net_step(net: int, pass: Pass, amount: Seq<char>, denom: Seq<char>) -> Result<int, LedgerError> {
    match amount_parse_of(amount, denom) {
        AmountParse::DenomMismatch => Ok(net),
        AmountParse::BadMagnitude => Err(LedgerError::InvalidMagnitude),
        AmountParse::Magnitude(m) => if fits_i128(net + signed(pass, m)) {
            Ok(net + signed(pass, m))
        } else {
            Err(LedgerError::NetOverflow)
        },
    }
}

/// The net after a run of transfers, taken in order; the first error stops it.
pub open spec fn net_fold(net: int, pass: Pass, ts: Seq<TransferView>, denom: Seq<char>) -> Result<int, LedgerError>
    decreases ts.len(),
{
    if ts.len() == 0 {
        Ok(net)
    } else {
        match net_fold(net, pass, ts.drop_last(), denom) {
            Ok(n) => net_step(n, pass, ts.last().amount, denom),
            Err(e) => Err(e),
        }
    }
}

/// The amounts of a run of transfers that are not in the denom, in order.
pub open spec fn mismatched_of(ts: Seq<TransferView>, denom: Seq<char>) -> Seq<Seq<char>>
    decreases ts.len(),
{
    if ts.len() == 0 {
        Seq::empty()
    } else {
        let rest = mismatched_of(ts.drop_last(), denom);
        if amount_parse_of(ts.last().amount, denom) == AmountParse::DenomMismatch {
            rest.push(ts.last().amount)
        } else {
            rest
        }
    }
}

/// The net amount as text: the signed whole number, then the denom.
pub open spec fn net_text(net: int, denom: Seq<char>) -> Seq<char> {
    int_text(net) + denom
}

/// Whether `s` ends with `suffix`.
pub fn has_suffix(s: &str, suffix: &str) -> (r: bool)
    ensures
        r == ends_with(s@, suffix@),
{
    let n = s.unicode_len();
    let k = suffix.unicode_len();
    if k > n {
        return false;
    }
    let off = n - k;
    let mut i: usize = 0;
    while i < k
        invariant
            n == s@.len(),
            k == suffix@.len(),
            off == n - k,
            i <= k,
            forall|j: int| 0 <= j < i ==> s@[off + j] == suffix@[j],
        decreases k - i,
    {
        if s.get_char(off + i) != suffix.get_char(i) {
            assert(s@.subrange(off as int, n as int)[i as int] != suffix@[i as int]);
            return false;
        }
        i = i + 1;
    }
    assert(s@.subrange(off as int, n as int) =~= suffix@);
    true
}

fn is_letter_char(c: char) -> (r: bool)
    ensures
        r == is_letter(c),
{
    ('a' <= c && c <= 'z') || ('A' <= c && c <= 'Z')
}

fn is_unit_character(c: char) -> (r: bool)
    ensures
        r == is_unit_char(c),
{
    is_letter_char(c) || ('0' <= c && c <= '9') || c == '/' || c == ':' || c == '.' || c == '_' || c == '-'
}

/// Whether the run of unit characters that ends at `end` holds a letter.
pub fn letter_in_unit_run(s: &str, end: usize) -> (r: bool)
    requires
        end <= s@.len(),
    ensures
        r == unit_run_has_letter(s@.subrange(0, end as int)),
{
    let mut i: usize = end;
    while i > 0
        invariant
            i <= end <= s@.len(),
            unit_run_has_letter(s@.subrange(0, end as int)) == unit_run_has_letter(s@.subrange(0, i as int)),
        decreases i,
    {
        let c = s.get_char(i - 1);
        let ghost t = s@.subrange(0, i as int);
        assert(t.last() == c);
        assert(t.drop_last() == s@.subrange(0, i - 1));
        if !is_unit_character(c) {
            return false;
        }
        if is_letter_char(c) {
            return true;
        }
        i = i - 1;
    }
    false
}

/// Reads an amount against the chain's denom.
pub fn parse_amount(amount: &str, denom: &str) -> (r: AmountParse)
    ensures
        r == amount_parse_of(amount@, denom@),
{
    if !has_suffix(amount, denom) {
        return AmountParse::DenomMismatch;
    }
    let n = amount.unicode_len();
    let k = denom.unicode_len();
    if letter_in_unit_run(amount, n - k) {
        return AmountParse::DenomMismatch;
    }
    match parse_magnitude(amount.substring_char(0, n - k)) {
        Some(m) => AmountParse::Magnitude(m),
        None => AmountParse::BadMagnitude,
    }
}

/// Adds one transfer's amount to the net, with the sign of the pass.
pub fn apply_amount(net: i128, pass: Pass, amount: &str, denom: &str) -> (r: Result<i128, LedgerError>)
    ensures
        match r {
            Ok(n) => net_step(net as int, pass, amount@, denom@) == Ok::<int, LedgerError>(n as int),
            Err(e) => net_step(net as int, pass, amount@, denom@) == Err::<int, LedgerError>(e),
        },
{
    match parse_amount(amount, denom) {
        AmountParse::DenomMismatch => Ok(net),
        AmountParse::BadMagnitude => Err(LedgerError::InvalidMagnitude),
        AmountParse::Magnitude(m) => {
            let r = match pass {
                Pass::AsSender => net.checked_sub(m as i128),
                Pass::AsRecipient => net.checked_add(m as i128),
            };
            match r {
                Some(n) => Ok(n),
                None => Err(LedgerError::NetOverflow),
            }
        },
    }
}

/// Adds the amounts of a run of transfers to the net, in order, and appends
/// to `skipped` the amounts left out for not being in the denom.
pub fn apply_transfers(
    net: i128,
    pass: Pass,
    ts: &Vec<Transfer>,
    denom: &str,
    skipped: &mut Vec<String>,
) -> (r: Result<i128, LedgerError>)
    ensures
        r is Ok ==> final(skipped)@.map_values(|a: String| a@)
            == old(skipped)@.map_values(|a: String| a@) + mismatched_of(ts@.map_values(|t: Transfer| t@), denom@),
        match r {
            Ok(n) => net_fold(net as int, pass, ts@.map_values(|t: Transfer| t@), denom@) == Ok::<int, LedgerError>(n as int),
            Err(e) => net_fold(net as int, pass, ts@.map_values(|t: Transfer| t@), denom@) == Err::<int, LedgerError>(e),
        },
{
    let ghost tv = ts@.map_values(|t: Transfer| t@);
    let ghost before = skipped@.map_values(|a: String| a@);
    let mut acc = net;
    let mut i: usize = 0;
    while i < ts.len()
        invariant
            i <= ts@.len(),
            tv == ts@.map_values(|t: Transfer| t@),
            skipped@.map_values(|a: String| a@) == before + mismatched_of(tv.subrange(0, i as int), denom@),
            net_fold(net as int, pass, tv.subrange(0, i as int), denom@) == Ok::<int, LedgerError>(acc as int),
        decreases ts@.len() - i,
    {
        assert(tv.subrange(0, i + 1).drop_last() == tv.subrange(0, i as int));
        assert(tv.subrange(0, i + 1).last() == ts@[i as int]@);
        let ghost prev = skipped@;
        if parse_amount(ts[i].amount.as_str(), denom) == AmountParse::DenomMismatch {
            skipped.push(ts[i].amount.clone());
            assert(skipped@.map_values(|a: String| a@) =~= prev.map_values(|a: String| a@).push(ts@[i as int].amount@));
        }
        match apply_amount(acc, pass, ts[i].amount.as_str(), denom) {
            Ok(n) => {
                acc = n;
            },
            Err(e) => {
                assert(net_fold(net as int, pass, tv.subrange(0, i + 1), denom@) == Err::<int, LedgerError>(e));
                proof {
                    lemma_fold_err_sticks(net as int, pass, tv, denom@, i + 1);
                }
                return Err(e);
            },
        }
        assert(before + mismatched_of(tv.subrange(0, i + 1), denom@)
            =~= skipped@.map_values(|a: String| a@));
        i = i + 1;
    }
    assert(tv.subrange(0, tv.len() as int) == tv);
    Ok(acc)
}

/// Once the fold of a prefix fails, the fold of the whole run fails the same way.
proof fn lemma_fold_err_sticks(net: int, pass: Pass, ts: Seq<TransferView>, denom: Seq<char>, k: int)
    requires
        0 <= k <= ts.len(),
        net_fold(net, pass, ts.subrange(0, k), denom) is Err,
    ensures
        net_fold(net, pass, ts, denom) == net_fold(net, pass, ts.subrange(0, k), denom),
    decreases ts.len() - k,
{
    if k == ts.len() {
        assert(ts.subrange(0, k) == ts);
    } else {
        assert(ts.subrange(0, k + 1).drop_last() == ts.subrange(0, k));
        lemma_fold_err_sticks(net, pass, ts, denom, k + 1);
    }
}

/// Writes the net amount: the signed whole number followed by the denom.
pub fn format_net(net: i128, denom: &str) -> (r: String)
    ensures
        r@ == net_text(net as int, denom@),
{
    let s = int_string(net);
    s.concat(denom)
}

} // verus!
