//! The arithmetic of the deposit ledger: sums of balances and holdings, and
//! the redistribution of a channel's deposits by its outcome.

use vstd::prelude::*;
use crate::types::{funding_id_of, Balance, Pk};

verus! {

/// The sum of a list of balances.
pub open spec fn seq_sum(xs: Seq<Balance>) -> int
    decreases xs.len(),
{
    if xs.len() == 0 {
        0
    } else {
        seq_sum(xs.drop_last()) + xs.last()
    }
}

/// What the ledger holds under `fid`; an absent entry counts as zero.
pub open spec fn holding(ledger: Map<Seq<u8>, Balance>, fid: Seq<u8>) -> int {
    if ledger.contains_key(fid) {
        ledger[fid] as int
    } else {
        0
    }
}

/// The sum of the holdings under a list of funding ids.
pub open spec fn deposit_sum(ledger: Map<Seq<u8>, Balance>, fids: Seq<Seq<u8>>) -> int
    decreases fids.len(),
{
    if fids.len() == 0 {
        0
    } else {
        deposit_sum(ledger, fids.drop_last()) + holding(ledger, fids.last())
    }
}

/// The funding ids of the participants of channel `channel`, in participant order.
pub open spec fn fids_of(channel: Seq<u8>, parts: Seq<Pk>) -> Seq<Seq<u8>> {
    Seq::new(parts.len(), |i: int| funding_id_of(channel, parts[i]@))
}

/// The ledger with `fids[i]` set to `outcome[i]`, in order.
pub open spec fn redistribute(
    ledger: Map<Seq<u8>, Balance>,
    fids: Seq<Seq<u8>>,
    outcome: Seq<Balance>,
) -> Map<Seq<u8>, Balance>
    decreases fids.len(),
{
    if fids.len() == 0 || outcome.len() == 0 {
        ledger
    } else {
        redistribute(ledger, fids.drop_last(), outcome.drop_last()).insert(
            fids.last(),
            outcome.last(),
        )
    }
}

/// The ledger after an outcome is pushed: redistributed when the deposits
/// cover the outcome, untouched when the channel is under-funded.
pub open spec fn pushed(
    ledger: Map<Seq<u8>, Balance>,
    fids: Seq<Seq<u8>>,
    outcome: Seq<Balance>,
) -> Map<Seq<u8>, Balance> {
    if deposit_sum(ledger, fids) >= seq_sum(outcome) {
        redistribute(ledger, fids, outcome)
    } else {
        ledger
    }
}

/// A prefix of a list of balances sums to at most the whole.
pub proof fn lemma_sum_prefix(xs: Seq<Balance>, k: int)
    requires
        0 <= k <= xs.len(),
    ensures
        0 <= seq_sum(xs.take(k)) <= seq_sum(xs),
    decreases xs.len(),
{
    if xs.len() > 0 {
        if k == xs.len() {
            assert(xs.take(k) =~= xs);
            lemma_sum_prefix(xs.drop_last(), k - 1);
        } else {
            lemma_sum_prefix(xs.drop_last(), k);
            assert(xs.drop_last().take(k) =~= xs.take(k));
        }
    }
}

/// Each balance of a list is at most its sum.
pub proof fn lemma_sum_term(xs: Seq<Balance>, i: int)
    requires
        0 <= i < xs.len(),
    ensures
        xs[i] <= seq_sum(xs),
    decreases xs.len(),
{
    lemma_sum_prefix(xs.drop_last(), xs.len() - 1);
    if i < xs.len() - 1 {
        lemma_sum_term(xs.drop_last(), i);
    }
}

/// Deposit sums are never negative and grow with the list.
pub proof fn lemma_deposit_sum_nonneg(ledger: Map<Seq<u8>, Balance>, fids: Seq<Seq<u8>>)
    ensures
        deposit_sum(ledger, fids) >= 0,
    decreases fids.len(),
{
    if fids.len() > 0 {
        lemma_deposit_sum_nonneg(ledger, fids.drop_last());
    }
}

/// Each holding of a list is at most the list's deposit sum.
pub proof fn lemma_deposit_sum_term(ledger: Map<Seq<u8>, Balance>, fids: Seq<Seq<u8>>, i: int)
    requires
        0 <= i < fids.len(),
    ensures
        holding(ledger, fids[i]) <= deposit_sum(ledger, fids),
    decreases fids.len(),
{
    lemma_deposit_sum_nonneg(ledger, fids.drop_last());
    if i < fids.len() - 1 {
        lemma_deposit_sum_term(ledger, fids.drop_last(), i);
    }
}

} // verus!
