//! The rules of the adjudicator, stated over the ledger and the register:
//! when each operation fails, and with which error, and what it writes.

use vstd::prelude::*;
use crate::ledger::{fids_of, holding, seq_sum};
use crate::pallet::{Config, Error, Event};
use crate::types::{
    funding_id_of, Balance, Params, ParticipantIndex, Phase, Pk, RegisteredState, Seconds, Sig,
    State, Withdrawal,
};

verus! {

/// Why pushing an outcome into channel `channel` fails, if it does: one
/// balance per participant, a total that fits, and no funding id twice (a
/// repeated participant would have its deposit counted twice).
pub open spec fn outcome_error(channel: Seq<u8>, parts: Seq<Pk>, outcome: Seq<Balance>) -> Option<
    Error,
> {
    if parts.len() != outcome.len() {
        Some(Error::InvalidOutcome)
    } else if seq_sum(outcome) > u64::MAX {
        Some(Error::OutcomeOverflow)
    } else if !fids_of(channel, parts).no_duplicates() {
        Some(Error::InvalidOutcome)
    } else {
        None
    }
}

/// Why a deposit fails, if it does.
pub open spec fn deposit_error(
    cfg: Config,
    ledger: Map<Seq<u8>, Balance>,
    fid: Seq<u8>,
    amount: Balance,
) -> Option<Error> {
    if amount < cfg.min_deposit {
        Some(Error::DepositTooSmall)
    } else if holding(ledger, fid) + amount > u64::MAX {
        Some(Error::DepositOverflow)
    } else {
        None
    }
}

/// Why a fully signed state fails authentication, if it does: the number of
/// signatures must be in the configured range, the state must belong to the
/// channel of `params`, and there must be one valid signature per participant,
/// in participant order.
pub open spec fn fully_signed_error(cfg: Config, params: Params, state: State, sigs: Seq<Sig>) -> Option<
    Error,
> {
    if !(cfg.participant_num_start <= sigs.len() < cfg.participant_num_end) {
        Some(Error::InvalidParticipantNum)
    } else if !params.encodable() || state.channel_id@ != params.id() {
        Some(Error::InvalidChannelId)
    } else if sigs.len() != params.participants@.len() {
        Some(Error::InvalidSignatureNum)
    } else if !(forall|i: int|
        0 <= i < sigs.len() ==> #[trigger] state.signed_by(sigs[i], params.participants@[i])) {
        Some(Error::InvalidSignature)
    } else {
        None
    }
}

/// Why a dispute fails, if it does.
pub open spec fn dispute_error(
    cfg: Config,
    register: Map<Seq<u8>, RegisteredState>,
    params: Params,
    state: State,
    sigs: Seq<Sig>,
    now: Seconds,
) -> Option<Error> {
    if state.finalized {
        Some(Error::StateFinal)
    } else if fully_signed_error(cfg, params, state, sigs) is Some {
        fully_signed_error(cfg, params, state, sigs)
    } else if !register.contains_key(state.channel_id@) {
        if now + params.challenge_duration > u64::MAX {
            Some(Error::ChallengeDurationOverflow)
        } else {
            None
        }
    } else {
        let rec = register[state.channel_id@];
        if rec.phase == Phase::Conclude {
            Some(Error::AlreadyConcluded)
        } else if rec.phase == Phase::Progress {
            Some(Error::RegisterPhaseOver)
        } else if state.version <= rec.state.version {
            Some(Error::DisputeVersionTooLow)
        } else if now > rec.timeout {
            Some(Error::DisputeTimedOut)
        } else {
            None
        }
    }
}

/// The record that an accepted dispute writes: a first dispute starts the
/// challenge window at `now`; a newer one keeps the running timeout.
pub open spec fn disputed_record(
    register: Map<Seq<u8>, RegisteredState>,
    params: Params,
    state: State,
    now: Seconds,
) -> RegisteredState {
    RegisteredState {
        phase: Phase::Register,
        state,
        timeout: if register.contains_key(state.channel_id@) {
            register[state.channel_id@].timeout
        } else {
            (now + params.challenge_duration) as u64
        },
    }
}

/// Whether `next` may follow `current` by an application step: `current` is
/// not final, the version grows by exactly one, and the total balance is kept.
pub open spec fn valid_step(current: State, next: State) -> bool {
    &&& !current.finalized
    &&& next.version == current.version + 1
    &&& seq_sum(current.balances@) == seq_sum(next.balances@)
}

/// Why a state fails single-signer authentication, if it does: it must belong
/// to the channel of `params` and be signed by participant number `signer`.
pub open spec fn signed_by_error(params: Params, state: State, sig: Sig, signer: ParticipantIndex) -> Option<
    Error,
> {
    if !params.encodable() || state.channel_id@ != params.id() {
        Some(Error::InvalidChannelId)
    } else if signer >= params.participants@.len() || !state.signed_by(
        sig,
        params.participants@[signer as int],
    ) {
        Some(Error::InvalidSignature)
    } else {
        None
    }
}

/// Why a progression fails before the application is asked, if it does.
pub open spec fn progress_error(
    cfg: Config,
    register: Map<Seq<u8>, RegisteredState>,
    params: Params,
    next: State,
    sig: Sig,
    signer: ParticipantIndex,
    now: Seconds,
) -> Option<Error> {
    if signed_by_error(params, next, sig, signer) is Some {
        signed_by_error(params, next, sig, signer)
    } else if params.app == cfg.no_app {
        Some(Error::NoApp)
    } else if !register.contains_key(next.channel_id@) {
        Some(Error::UnknownChannel)
    } else {
        let rec = register[next.channel_id@];
        if rec.phase == Phase::Register && now < rec.timeout {
            Some(Error::TooEarly)
        } else if rec.phase == Phase::Conclude {
            Some(Error::AlreadyConcluded)
        } else if !valid_step(rec.state, next) {
            Some(Error::InvalidTransition)
        } else {
            None
        }
    }
}

/// The result of a step that passed [`progress_error`], for each verdict of
/// the application. Refused, it fails. Approved, it fails when the new
/// timeout overflows, and else it stores the progress record.
pub open spec fn progressed(
    register: Map<Seq<u8>, RegisteredState>,
    params: Params,
    next: State,
    approved: bool,
    r: Result<Event, Error>,
    after: Map<Seq<u8>, RegisteredState>,
) -> bool {
    let timeout = register[next.channel_id@].timeout + params.challenge_duration;
    if !approved {
        r == Err::<Event, Error>(Error::InvalidTransition) && after == register
    } else if timeout > u64::MAX {
        r == Err::<Event, Error>(Error::ChallengeDurationOverflow) && after == register
    } else {
        &&& r == Ok::<Event, Error>(Event::Progressed(next.channel_id, next.version, params.app))
        &&& after == register.insert(
            next.channel_id@,
            RegisteredState { phase: Phase::Progress, state: next, timeout: timeout as u64 },
        )
    }
}

/// The time after which a registered channel may be concluded: an
/// application channel still in its register phase gets one more challenge
/// window, for progression.
pub open spec fn conclude_after(cfg: Config, rec: RegisteredState, params: Params) -> int {
    if rec.phase == Phase::Register && params.app != cfg.no_app {
        rec.timeout + params.challenge_duration
    } else {
        rec.timeout as int
    }
}

/// Whether the register holds `channel` as concluded.
pub open spec fn is_concluded(register: Map<Seq<u8>, RegisteredState>, channel: Seq<u8>) -> bool {
    register.contains_key(channel) && register[channel].phase == Phase::Conclude
}

/// Why concluding a disputed channel fails, if it does.
pub open spec fn conclude_error(
    cfg: Config,
    register: Map<Seq<u8>, RegisteredState>,
    params: Params,
    now: Seconds,
) -> Option<Error> {
    if !params.encodable() || !register.contains_key(params.id()) {
        Some(Error::UnknownChannel)
    } else {
        let rec = register[params.id()];
        if rec.phase == Phase::Conclude {
            None
        } else if now < conclude_after(cfg, rec, params) {
            Some(Error::ConcludedTooEarly)
        } else {
            outcome_error(params.id(), params.participants@, rec.state.balances@)
        }
    }
}

/// Why a collaborative conclusion fails, if it does.
pub open spec fn conclude_final_error(
    cfg: Config,
    register: Map<Seq<u8>, RegisteredState>,
    params: Params,
    state: State,
    sigs: Seq<Sig>,
) -> Option<Error> {
    if !state.finalized {
        Some(Error::StateNotFinal)
    } else if fully_signed_error(cfg, params, state, sigs) is Some {
        fully_signed_error(cfg, params, state, sigs)
    } else if is_concluded(register, state.channel_id@) {
        if register[state.channel_id@].state.version != state.version {
            Some(Error::ConcludedWithDifferentVersion)
        } else {
            None
        }
    } else {
        outcome_error(state.channel_id@, params.participants@, state.balances@)
    }
}

/// Why a withdrawal fails, if it does.
pub open spec fn withdraw_error(
    register: Map<Seq<u8>, RegisteredState>,
    ledger: Map<Seq<u8>, Balance>,
    withdrawal: Withdrawal,
    sig: Sig,
) -> Option<Error> {
    if !withdrawal.signed(sig) {
        Some(Error::InvalidSignature)
    } else if !register.contains_key(withdrawal.channel_id@) {
        Some(Error::UnknownChannel)
    } else if register[withdrawal.channel_id@].phase != Phase::Conclude {
        Some(Error::NotConcluded)
    } else if !ledger.contains_key(funding_id_of(withdrawal.channel_id@, withdrawal.part@)) {
        Some(Error::UnknownDeposit)
    } else {
        None
    }
}

/// Every channel registered in `before` is still registered in `after`, at a
/// version at least as high.
pub open spec fn versions_kept(
    before: Map<Seq<u8>, RegisteredState>,
    after: Map<Seq<u8>, RegisteredState>,
) -> bool {
    forall|c: Seq<u8>| #[trigger]
        before.contains_key(c) ==> after.contains_key(c) && before[c].state.version
            <= after[c].state.version
}

} // verus!
