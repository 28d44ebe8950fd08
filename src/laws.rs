//! Properties that relate the adjudicator's operations to one another.

use vstd::prelude::*;
use crate::ledger::{
    deposit_sum, fids_of, holding, lemma_deposit_sum_term, lemma_sum_term, pushed,
    redistribute, seq_sum,
};
use crate::pallet::{Config, Error};
use crate::rules::{conclude_final_error, is_concluded, outcome_error, withdraw_error};
use crate::types::{funding_id_of, Balance, Params, Phase, Pk, RegisteredState, Sig, State, Withdrawal};

verus! {

/// Setting an entry that a list of funding ids does not name leaves its sum alone.
proof fn lemma_deposit_sum_insert_outside(
    ledger: Map<Seq<u8>, Balance>,
    fids: Seq<Seq<u8>>,
    k: Seq<u8>,
    v: Balance,
)
    requires
        !fids.contains(k),
    ensures
        deposit_sum(ledger.insert(k, v), fids) == deposit_sum(ledger, fids),
    decreases fids.len(),
{
    if fids.len() > 0 {
        assert(fids.drop_last().contains(k) ==> fids.contains(k)) by {
            if fids.drop_last().contains(k) {
                let j = choose|j: int| 0 <= j < fids.drop_last().len() && fids.drop_last()[j] == k;
                assert(fids[j] == k);
            }
        }
        assert(fids[fids.len() - 1] != k);
        lemma_deposit_sum_insert_outside(ledger, fids.drop_last(), k, v);
    }
}

/// With distinct funding ids, redistribution sets each id to its outcome.
proof fn lemma_redistribute_at(
    ledger: Map<Seq<u8>, Balance>,
    fids: Seq<Seq<u8>>,
    outcome: Seq<Balance>,
    i: int,
)
    requires
        fids.len() == outcome.len(),
        fids.no_duplicates(),
        0 <= i < fids.len(),
    ensures
        holding(redistribute(ledger, fids, outcome), fids[i]) == outcome[i],
    decreases fids.len(),
{
    if i < fids.len() - 1 {
        assert(fids[i] != fids.last());
        lemma_redistribute_at(ledger, fids.drop_last(), outcome.drop_last(), i);
    }
}

/// With distinct funding ids, the redistributed ledger holds exactly the outcome's total.
proof fn lemma_redistribute_sum(
    ledger: Map<Seq<u8>, Balance>,
    fids: Seq<Seq<u8>>,
    outcome: Seq<Balance>,
)
    requires
        fids.len() == outcome.len(),
        fids.no_duplicates(),
    ensures
        deposit_sum(redistribute(ledger, fids, outcome), fids) == seq_sum(outcome),
    decreases fids.len(),
{
    if fids.len() > 0 {
        let f1 = fids.drop_last();
        let o1 = outcome.drop_last();
        assert(f1.no_duplicates());
        assert(!f1.contains(fids.last())) by {
            if f1.contains(fids.last()) {
                let j = choose|j: int| 0 <= j < f1.len() && f1[j] == fids.last();
                assert(fids[j] == fids[fids.len() - 1]);
            }
        }
        lemma_redistribute_sum(ledger, f1, o1);
        lemma_deposit_sum_insert_outside(
            redistribute(ledger, f1, o1),
            f1,
            fids.last(),
            outcome.last(),
        );
    }
}

/// The ledger `after` holds no more for the funding ids `fids` than `before`
/// did: the ids are distinct, their total does not grow, and none of them
/// holds more than that earlier total.
pub open spec fn solvent(
    before: Map<Seq<u8>, Balance>,
    after: Map<Seq<u8>, Balance>,
    fids: Seq<Seq<u8>>,
) -> bool {
    &&& fids.no_duplicates()
    &&& deposit_sum(after, fids) <= deposit_sum(before, fids)
    &&& forall|i: int| 0 <= i < fids.len() ==> holding(after, #[trigger] fids[i]) <= deposit_sum(before, fids)
}

/// No outcome manufactures funds. Whenever an outcome is accepted for a
/// channel, the ledger it leaves is solvent for the channel's participants:
/// together they hold at most what they held before, and none holds more
/// than that total.
pub proof fn lemma_push_outcome_solvent(
    ledger: Map<Seq<u8>, Balance>,
    channel: Seq<u8>,
    parts: Seq<Pk>,
    outcome: Seq<Balance>,
)
    requires
        outcome_error(channel, parts, outcome) is None,
    ensures
        solvent(ledger, pushed(ledger, fids_of(channel, parts), outcome), fids_of(channel, parts)),
{
    let fids = fids_of(channel, parts);
    if deposit_sum(ledger, fids) >= seq_sum(outcome) {
        lemma_redistribute_sum(ledger, fids, outcome);
        assert forall|i: int| 0 <= i < fids.len() implies holding(
            pushed(ledger, fids, outcome),
            #[trigger] fids[i],
        ) <= deposit_sum(ledger, fids) by {
            lemma_redistribute_at(ledger, fids, outcome, i);
            lemma_sum_term(outcome, i);
        }
    } else {
        assert forall|i: int| 0 <= i < fids.len() implies holding(
            pushed(ledger, fids, outcome),
            #[trigger] fids[i],
        ) <= deposit_sum(ledger, fids) by {
            lemma_deposit_sum_term(ledger, fids, i);
        }
    }
}

/// A deposit is paid out once. After a withdrawal succeeds, every later
/// withdrawal of the same funding id fails, whatever channel and participant
/// it names: with "unknown deposit" whenever it is validly signed and names a
/// concluded channel, and for its signature or its channel otherwise.
pub proof fn lemma_withdraw_once(
    register: Map<Seq<u8>, RegisteredState>,
    ledger: Map<Seq<u8>, Balance>,
    withdrawal: Withdrawal,
    sig: Sig,
    again: Withdrawal,
    again_sig: Sig,
)
    requires
        withdraw_error(register, ledger, withdrawal, sig) is None,
        funding_id_of(again.channel_id@, again.part@) == funding_id_of(
            withdrawal.channel_id@,
            withdrawal.part@,
        ),
    ensures
        ({
            let after = ledger.remove(funding_id_of(withdrawal.channel_id@, withdrawal.part@));
            &&& withdraw_error(register, after, again, again_sig) is Some
            &&& (again.signed(again_sig) && is_concluded(register, again.channel_id@)) ==> withdraw_error(
                register,
                after,
                again,
                again_sig,
            ) == Some(Error::UnknownDeposit)
        }),
{
}

/// Collaborative conclusion is idempotent. After `conclude_final` accepts a
/// state, the same call accepts it again, finds the channel concluded, and so
/// changes nothing and reports no second conclusion.
pub proof fn lemma_conclude_final_idempotent(
    cfg: Config,
    register: Map<Seq<u8>, RegisteredState>,
    params: Params,
    state: State,
    sigs: Seq<Sig>,
)
    requires
        conclude_final_error(cfg, register, params, state, sigs) is None,
    ensures
        ({
            let after = if is_concluded(register, state.channel_id@) {
                register
            } else {
                register.insert(
                    state.channel_id@,
                    RegisteredState { phase: Phase::Conclude, state, timeout: 0 },
                )
            };
            conclude_final_error(cfg, after, params, state, sigs) is None && is_concluded(
                after,
                state.channel_id@,
            )
        }),
{
}

} // verus!
