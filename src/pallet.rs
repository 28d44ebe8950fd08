//! The adjudicator: the channel register and deposit ledger, and the
//! operations on them.

use vstd::prelude::*;
use crate::ledger::{
    deposit_sum, fids_of, holding, lemma_sum_prefix, pushed, redistribute, seq_sum,
};
use crate::rules::{
    conclude_error, conclude_final_error, deposit_error, dispute_error, disputed_record,
    fully_signed_error, is_concluded, outcome_error, progress_error, progressed,
    signed_by_error, valid_step, versions_kept, withdraw_error,
};
use crate::app::AppRegistry;
use crate::laws::{lemma_push_outcome_solvent, solvent};
use crate::store::Store;
use crate::types::{
    funding_id_of, AccountId, AppId, Balance, ChannelId, Funding, FundingId, ParticipantIndex,
    Params, Phase, Pk, RegisteredState, Seconds, Sig, State, Version,
};

verus! {

/// The host's settings for the adjudicator.
#[derive(Clone, Copy, Debug, PartialEq, Eq, Structural)]
pub struct Config {
    /// The smallest amount that one deposit may add.
    pub min_deposit: Balance,
    /// Smallest valid number of participants of a channel.
    pub participant_num_start: u32,
    /// One past the largest valid number of participants of a channel.
    pub participant_num_end: u32,
    /// The application id that marks a channel without application.
    pub no_app: AppId,
}

/// Everything an operation can fail with.
#[derive(Clone, Copy, Debug, PartialEq, Eq, Structural)]
pub enum Error {
    /// A deposit was less than the configured minimum.
    DepositTooSmall,
    /// The dispute timed out and can now be concluded.
    DisputeTimedOut,
    /// There is an ongoing dispute for this channel.
    DisputeActive,
    /// A dispute must carry a higher version than the registered state.
    DisputeVersionTooLow,
    /// A timeout does not fit the time type.
    ChallengeDurationOverflow,
    /// The operation is invalid once the register phase is over.
    RegisterPhaseOver,
    /// The operation may become valid, but its time has not come.
    TooEarly,
    /// The channel is already concluded.
    AlreadyConcluded,
    /// The timeout of the channel did not elapse yet.
    ConcludedTooEarly,
    /// The channel is not concluded.
    NotConcluded,
    /// The channel was concluded with another version.
    ConcludedWithDifferentVersion,
    /// The operation is only valid on a channel with an application.
    NoApp,
    /// The outcome does not fit the balance type.
    OutcomeOverflow,
    /// The outcome does not match the participants.
    InvalidOutcome,
    /// A deposit would overflow the balance type.
    DepositOverflow,
    /// The state is final.
    StateFinal,
    /// The state is not final.
    StateNotFinal,
    /// The parameters and the state name different channels.
    InvalidChannelId,
    /// A signature does not verify.
    InvalidSignature,
    /// There must be one signature per participant.
    InvalidSignatureNum,
    /// The number of participants is outside the configured range.
    InvalidParticipantNum,
    /// The application step is not a valid transition.
    InvalidTransition,
    /// There is no such deposit.
    UnknownDeposit,
    /// There is no such channel.
    UnknownChannel,
}

/// What a successful operation reports.
#[derive(Clone, Debug, PartialEq, Eq)]
pub enum Event {
    /// A deposit; carries the funding id and its new total.
    Deposited(FundingId, Balance),
    /// A channel was disputed with the given state.
    Disputed(ChannelId, State),
    /// A channel was progressed to the given version by the given application.
    Progressed(ChannelId, Version, AppId),
    /// A channel was concluded.
    Concluded(ChannelId),
    /// A deposit was withdrawn; carries the funding id, the receiver and the
    /// amount that the host pays out to it.
    Withdrawn(FundingId, AccountId, Balance),
}

/// The adjudicator's storage: the deposit ledger and the channel register.
/// A host that moves funds after an operation keeps a clone from before the
/// call, and puts it back if its transfer fails, so that the operation and
/// the transfer happen together or not at all.
#[derive(Clone)]
pub struct Pallet {
    config: Config,
    deposits: Store<Balance>,
    state_register: Store<RegisteredState>,
}

impl Pallet {
    /// The tables are well formed.
    pub closed spec fn wf(&self) -> bool {
        self.deposits.wf() && self.state_register.wf()
    }

    /// The settings.
    pub closed spec fn config(&self) -> Config {
        self.config
    }

    /// The deposit ledger, by funding id.
    pub closed spec fn ledger(&self) -> Map<Seq<u8>, Balance> {
        self.deposits@
    }

    /// The channel register, by channel id.
    pub closed spec fn register(&self) -> Map<Seq<u8>, RegisteredState> {
        self.state_register@
    }

    /// An adjudicator with empty tables.
    pub fn new(config: Config) -> (r: Pallet)
        ensures
            r.wf(),
            r.config() == config,
            r.ledger() == Map::<Seq<u8>, Balance>::empty(),
            r.register() == Map::<Seq<u8>, RegisteredState>::empty(),
    {
        Pallet { config, deposits: Store::new(), state_register: Store::new() }
    }

    /// The settings.
    pub fn get_config(&self) -> (r: Config)
        ensures
            r == self.config(),
    {
        self.config
    }

    /// What is deposited under `funding_id`, if anything.
    pub fn deposits(&self, funding_id: &FundingId) -> (r: Option<Balance>)
        requires
            self.wf(),
        ensures
            r == (if self.ledger().contains_key(funding_id@) {
                Some(self.ledger()[funding_id@])
            } else {
                None
            }),
    {
        match self.deposits.get(funding_id) {
            Some(b) => Some(*b),
            None => None,
        }
    }

    /// The registered state of a channel, if any.
    pub fn state_registers(&self, channel_id: &ChannelId) -> (r: Option<&RegisteredState>)
        requires
            self.wf(),
        ensures
            match r {
                Some(rec) => self.register().contains_key(channel_id@) && *rec
                    == self.register()[channel_id@],
                None => !self.register().contains_key(channel_id@),
            },
    {
        self.state_register.get(channel_id)
    }

    /// Calculates the funding id of a participant in a channel.
    pub fn calc_funding_id(channel: ChannelId, part: &Pk) -> (r: FundingId)
        ensures
            r@ == funding_id_of(channel@, part@),
    {
        Funding { channel, part: *part }.id()
    }

    /// Adds `amount` to the deposit under `funding_id`. When this succeeds the
    /// host moves the funds into custody; if that transfer fails, it puts back
    /// its clone of the adjudicator from before the call.
    pub fn deposit(&mut self, funding_id: FundingId, amount: Balance) -> (r: Result<Event, Error>)
        requires
            old(self).wf(),
        ensures
            final(self).wf(),
            final(self).config() == old(self).config(),
            final(self).register() == old(self).register(),
            match deposit_error(old(self).config(), old(self).ledger(), funding_id@, amount) {
                Some(e) => r == Err::<Event, Error>(e) && final(self).ledger() == old(
                    self,
                ).ledger(),
                None => {
                    let total = (holding(old(self).ledger(), funding_id@) + amount) as u64;
                    &&& r == Ok::<Event, Error>(Event::Deposited(funding_id, total))
                    &&& final(self).ledger() == old(self).ledger().insert(funding_id@, total)
                },
            },
    {
        if amount < self.config.min_deposit {
            return Err(Error::DepositTooSmall);
        }
        let holding: Balance = match self.deposits.get(&funding_id) {
            Some(b) => *b,
            None => 0,
        };
        let total = match holding.checked_add(amount) {
            Some(t) => t,
            None => return Err(Error::DepositOverflow),
        };
        self.deposits.insert(funding_id, total);
        Ok(Event::Deposited(funding_id, total))
    }

    /// Pushes the outcome of a channel into the ledger: when the deposits of
    /// its participants cover the outcome, each participant's entry is set to
    /// its outcome; an under-funded channel leaves the ledger as it is. A list
    /// in which a funding id repeats is refused with `InvalidOutcome`.
    fn push_outcome(&mut self, channel: &ChannelId, parts: &Vec<Pk>, outcome: &Vec<Balance>) -> (r:
        Result<(), Error>)
        requires
            old(self).wf(),
        ensures
            final(self).wf(),
            final(self).config() == old(self).config(),
            final(self).register() == old(self).register(),
            match outcome_error(channel@, parts@, outcome@) {
                Some(e) => r == Err::<(), Error>(e) && final(self).ledger() == old(self).ledger(),
                None => r is Ok && final(self).ledger() == pushed(
                    old(self).ledger(),
                    fids_of(channel@, parts@),
                    outcome@,
                ),
            },
            // No outcome manufactures funds: the participants' funding ids are
            // distinct, and together they hold at most what they held before.
            r is Ok ==> solvent(old(self).ledger(), final(self).ledger(), fids_of(channel@, parts@)),
    {
        if parts.len() != outcome.len() {
            return Err(Error::InvalidOutcome);
        }
        let ghost ledger0 = self.deposits@;
        let ghost all = fids_of(channel@, parts@);
        let mut fids: Vec<FundingId> = Vec::new();
        let mut sum_outcome: u64 = 0;
        let mut sum_deposit: u128 = 0;
        let mut i: usize = 0;
        while i < parts.len()
            invariant
                self.wf(),
                self.deposits@ == ledger0,
                self.config == old(self).config,
                self.state_register@ == old(self).state_register@,
                parts@.len() == outcome@.len(),
                all == fids_of(channel@, parts@),
                i <= parts@.len(),
                fids@.len() == i,
                forall|j: int| 0 <= j < i ==> (#[trigger] fids@[j])@ == all[j],
                sum_outcome == seq_sum(outcome@.take(i as int)),
                sum_deposit == deposit_sum(ledger0, all.take(i as int)),
                sum_deposit <= i * 0xFFFF_FFFF_FFFF_FFFFu128,
            decreases parts@.len() - i,
        {
            let fid = Self::calc_funding_id(*channel, &parts[i]);
            let dep: Balance = match self.deposits.get(&fid) {
                Some(d) => *d,
                None => 0,
            };
            assert(outcome@.take(i + 1).drop_last() =~= outcome@.take(i as int));
            assert(all.take(i + 1).drop_last() =~= all.take(i as int));
            sum_outcome = match sum_outcome.checked_add(outcome[i]) {
                Some(s) => s,
                None => {
                    proof {
                        lemma_sum_prefix(outcome@, i + 1);
                    }
                    return Err(Error::OutcomeOverflow);
                },
            };
            assert(dep as int == holding(ledger0, all[i as int]));
            assert((i + 1) * 0xFFFF_FFFF_FFFF_FFFFu128 == i * 0xFFFF_FFFF_FFFF_FFFFu128
                + 0xFFFF_FFFF_FFFF_FFFFu128) by (nonlinear_arith);
            assert((i + 1) * 0xFFFF_FFFF_FFFF_FFFFint <= 0xFFFF_FFFF_FFFF_FFFF_FFFF_FFFF_FFFF_FFFFint)
                by (nonlinear_arith)
                requires
                    i < 0xFFFF_FFFF_FFFF_FFFFint,
            ;
            sum_deposit = sum_deposit + dep as u128;
            fids.push(fid);
            i = i + 1;
        }
        assert(outcome@.take(i as int) =~= outcome@);
        assert(all.take(i as int) =~= all);
        let mut a: usize = 0;
        while a < fids.len()
            invariant
                self.wf(),
                self.deposits@ == ledger0,
                self.config == old(self).config,
                self.state_register@ == old(self).state_register@,
                parts@.len() == outcome@.len(),
                all == fids_of(channel@, parts@),
                sum_outcome == seq_sum(outcome@),
                sum_deposit == deposit_sum(ledger0, all),
                fids@.len() == all.len(),
                forall|j: int| 0 <= j < fids@.len() ==> (#[trigger] fids@[j])@ == all[j],
                a <= fids@.len(),
                forall|x: int, y: int| 0 <= x < a && x < y < all.len() ==> all[x] != all[y],
            decreases fids@.len() - a,
        {
            let mut b: usize = a + 1;
            while b < fids.len()
                invariant
                    self.wf(),
                    self.deposits@ == ledger0,
                    self.config == old(self).config,
                    self.state_register@ == old(self).state_register@,
                    parts@.len() == outcome@.len(),
                    all == fids_of(channel@, parts@),
                    sum_outcome == seq_sum(outcome@),
                    sum_deposit == deposit_sum(ledger0, all),
                    fids@.len() == all.len(),
                    forall|j: int| 0 <= j < fids@.len() ==> (#[trigger] fids@[j])@ == all[j],
                    a < b <= fids@.len(),
                    forall|x: int, y: int| 0 <= x < a && x < y < all.len() ==> all[x] != all[y],
                    forall|y: int| a < y < b ==> all[a as int] != all[y],
                decreases fids@.len() - b,
            {
                if crate::encoding::same_bytes32(&fids[a], &fids[b]) {
                    assert(all[a as int] == all[b as int]);
                    return Err(Error::InvalidOutcome);
                }
                b = b + 1;
            }
            a = a + 1;
        }
        assert(all.no_duplicates()) by {
            assert forall|x: int, y: int| 0 <= x < all.len() && 0 <= y < all.len() && x != y implies all[x]
                != all[y] by {
                if y < x {
                    assert(all[y] != all[x]);
                }
            }
        }
        proof {
            lemma_push_outcome_solvent(ledger0, channel@, parts@, outcome@);
        }
        if sum_deposit >= sum_outcome as u128 {
            let mut j: usize = 0;
            while j < fids.len()
                invariant
                    self.wf(),
                    self.config == old(self).config,
                    self.state_register@ == old(self).state_register@,
                    fids@.len() == outcome@.len(),
                    all.len() == fids@.len(),
                    forall|k: int| 0 <= k < fids@.len() ==> (#[trigger] fids@[k])@ == all[k],
                    j <= fids@.len(),
                    self.deposits@ == redistribute(
                        ledger0,
                        all.take(j as int),
                        outcome@.take(j as int),
                    ),
                decreases fids@.len() - j,
            {
                self.deposits.insert(fids[j], outcome[j]);
                assert(outcome@.take(j + 1).drop_last() =~= outcome@.take(j as int));
                assert(all.take(j + 1).drop_last() =~= all.take(j as int));
                j = j + 1;
            }
            assert(outcome@.take(j as int) =~= outcome@);
            assert(all.take(j as int) =~= all);
        }
        Ok(())
    }

    /// Checks that `state` belongs to the channel of `params` and carries one
    /// valid signature per participant.
    fn validate_fully_signed(&self, params: &Params, state: &State, sigs: &Vec<Sig>) -> (r: Result<
        (),
        Error,
    >)
        ensures
            r == match fully_signed_error(self.config(), *params, *state, sigs@) {
                Some(e) => Err::<(), Error>(e),
                None => Ok(()),
            },
    {
        let n = sigs.len();
        if !((self.config.participant_num_start as usize) <= n && n
            < (self.config.participant_num_end as usize)) {
            return Err(Error::InvalidParticipantNum);
        }
        if params.participants.len() > u32::MAX as usize {
            return Err(Error::InvalidChannelId);
        }
        let channel_id = params.channel_id();
        if !crate::encoding::same_bytes32(&state.channel_id, &channel_id) {
            return Err(Error::InvalidChannelId);
        }
        if n != params.participants.len() {
            return Err(Error::InvalidSignatureNum);
        }
        let mut i: usize = 0;
        while i < n
            invariant
                n == sigs@.len(),
                n == params.participants@.len(),
                self.config.participant_num_start <= n < self.config.participant_num_end,
                params.encodable(),
                state.channel_id@ == params.id(),
                i <= n,
                forall|j: int|
                    0 <= j < i ==> #[trigger] state.signed_by(sigs@[j], params.participants@[j]),
            decreases n - i,
        {
            if !state.validate_sig(&sigs[i], &params.participants[i]) {
                assert(!state.signed_by(sigs@[i as int], params.participants@[i as int]));
                return Err(Error::InvalidSignature);
            }
            i = i + 1;
        }
        Ok(())
    }

    /// Registers a fully signed, non-final state for a channel whose
    /// participants disagree. The first dispute opens a challenge window of
    /// `params.challenge_duration` from `now`; while it runs, anyone may
    /// dispute again with a higher version, which keeps the running timeout.
    pub fn dispute(&mut self, params: Params, state: State, state_sigs: Vec<Sig>, now: Seconds) -> (r:
        Result<Event, Error>)
        requires
            old(self).wf(),
        ensures
            final(self).wf(),
            final(self).config() == old(self).config(),
            final(self).ledger() == old(self).ledger(),
            match dispute_error(old(self).config(), old(self).register(), params, state, state_sigs@, now) {
                Some(e) => r == Err::<Event, Error>(e) && final(self).register() == old(
                    self,
                ).register(),
                None => {
                    &&& r matches Ok(Event::Disputed(c, s)) && c == state.channel_id && s.equals(&state)
                    &&& final(self).register() == old(self).register().insert(
                        state.channel_id@,
                        disputed_record(old(self).register(), params, state, now),
                    )
                },
            },
            // A newer dispute strictly raises the registered version.
            versions_kept(old(self).register(), final(self).register()),
            (r is Ok && old(self).register().contains_key(state.channel_id@)) ==> (
            old(self).register()[state.channel_id@].state.version
                < final(self).register()[state.channel_id@].state.version),
    {
        if state.finalized {
            return Err(Error::StateFinal);
        }
        self.validate_fully_signed(&params, &state, &state_sigs)?;
        let channel_id = state.channel_id;
        let timeout = match self.state_register.get(&channel_id) {
            None => match now.checked_add(params.challenge_duration) {
                Some(t) => t,
                None => return Err(Error::ChallengeDurationOverflow),
            },
            Some(dispute) => {
                match dispute.phase {
                    Phase::Conclude => return Err(Error::AlreadyConcluded),
                    Phase::Progress => return Err(Error::RegisterPhaseOver),
                    Phase::Register => {},
                }
                if state.version <= dispute.state.version {
                    return Err(Error::DisputeVersionTooLow);
                }
                if now > dispute.timeout {
                    return Err(Error::DisputeTimedOut);
                }
                dispute.timeout
            },
        };
        let reported = state.duplicate();
        self.state_register.insert(
            channel_id,
            RegisteredState { phase: Phase::Register, state, timeout },
        );
        Ok(Event::Disputed(channel_id, reported))
    }

    /// Checks that `state` belongs to the channel of `params` and is signed by
    /// participant number `signer`.
    fn validate_signed_by(params: &Params, state: &State, sig: &Sig, signer: ParticipantIndex) -> (r:
        Result<(), Error>)
        ensures
            r == match signed_by_error(*params, *state, *sig, signer) {
                Some(e) => Err::<(), Error>(e),
                None => Ok(()),
            },
    {
        if params.participants.len() > u32::MAX as usize {
            return Err(Error::InvalidChannelId);
        }
        let channel_id = params.channel_id();
        if !crate::encoding::same_bytes32(&state.channel_id, &channel_id) {
            return Err(Error::InvalidChannelId);
        }
        if signer as usize >= params.participants.len() {
            return Err(Error::InvalidSignature);
        }
        if !state.validate_sig(sig, &params.participants[signer as usize]) {
            return Err(Error::InvalidSignature);
        }
        Ok(())
    }

    /// The total of a list of balances; it cannot overflow a `u128`.
    fn accumulate_balances(balances: &Vec<Balance>) -> (r: u128)
        ensures
            r == seq_sum(balances@),
    {
        let mut acc: u128 = 0;
        let mut i: usize = 0;
        while i < balances.len()
            invariant
                i <= balances@.len(),
                acc == seq_sum(balances@.take(i as int)),
                acc <= i * 0xFFFF_FFFF_FFFF_FFFFu128,
            decreases balances@.len() - i,
        {
            assert(balances@.take(i + 1).drop_last() =~= balances@.take(i as int));
            assert((i + 1) * 0xFFFF_FFFF_FFFF_FFFFu128 == i * 0xFFFF_FFFF_FFFF_FFFFu128
                + 0xFFFF_FFFF_FFFF_FFFFu128) by (nonlinear_arith);
            assert((i + 1) * 0xFFFF_FFFF_FFFF_FFFFint <= 0xFFFF_FFFF_FFFF_FFFF_FFFF_FFFF_FFFF_FFFFint)
                by (nonlinear_arith)
                requires
                    i < 0xFFFF_FFFF_FFFF_FFFFint,
            ;
            acc = acc + balances[i] as u128;
            i = i + 1;
        }
        assert(balances@.take(i as int) =~= balances@);
        acc
    }

    /// Whether the step from `current` to `next` is valid: the adjudicator's
    /// own rules, and then, only when they hold, the application's verdict.
    fn valid_transition<A: AppRegistry>(
        params: &Params,
        current: &State,
        next: &State,
        signer: ParticipantIndex,
    ) -> (r: bool)
        ensures
            r == (valid_step(*current, *next) && A::approves(*params, *current, *next, signer)),
    {
        if current.finalized {
            return false;
        }
        if current.version == u64::MAX || next.version != current.version + 1 {
            return false;
        }
        if Self::accumulate_balances(&current.balances) != Self::accumulate_balances(&next.balances) {
            return false;
        }
        A::valid_transition(params, current, next, signer)
    }

    /// Carries out a step once the application has given its verdict
    /// `approved`: a refused step fails, an approved one moves the channel to
    /// the progress phase with `next` and a new challenge window.
    fn apply_progress(&mut self, params: &Params, next: State, approved: bool) -> (r: Result<
        Event,
        Error,
    >)
        requires
            old(self).wf(),
            old(self).register().contains_key(next.channel_id@),
        ensures
            final(self).wf(),
            final(self).config() == old(self).config(),
            final(self).ledger() == old(self).ledger(),
            progressed(old(self).register(), *params, next, approved, r, final(self).register()),
    {
        if !approved {
            return Err(Error::InvalidTransition);
        }
        let timeout = match self.state_register.get(&next.channel_id) {
            Some(dispute) => match dispute.timeout.checked_add(params.challenge_duration) {
                Some(t) => t,
                None => return Err(Error::ChallengeDurationOverflow),
            },
            None => return Err(Error::UnknownChannel),
        };
        let channel_id = next.channel_id;
        let version = next.version;
        self.state_register.insert(
            channel_id,
            RegisteredState { phase: Phase::Progress, state: next, timeout },
        );
        Ok(Event::Progressed(channel_id, version, params.app))
    }

    /// Advances a disputed application channel by a step that one participant
    /// signed. Allowed once the register window has passed (at once in the
    /// progress phase), if the step keeps the rules of [`valid_step`] and the
    /// application approves; each accepted step opens a new challenge window.
    pub fn progress<A: AppRegistry>(
        &mut self,
        params: Params,
        next: State,
        sig: Sig,
        signer: ParticipantIndex,
        now: Seconds,
    ) -> (r: Result<Event, Error>)
        requires
            old(self).wf(),
        ensures
            final(self).wf(),
            final(self).config() == old(self).config(),
            final(self).ledger() == old(self).ledger(),
            match progress_error(old(self).config(), old(self).register(), params, next, sig, signer, now) {
                Some(e) => r == Err::<Event, Error>(e) && final(self).register() == old(
                    self,
                ).register(),
                // The application is asked about the registered state and `next`,
                // and the outcome is the one `progressed` gives for its verdict.
                None => progressed(
                    old(self).register(),
                    params,
                    next,
                    A::approves(params, old(self).register()[next.channel_id@].state, next, signer),
                    r,
                    final(self).register(),
                ),
            },
            versions_kept(old(self).register(), final(self).register()),
            // An accepted step keeps the total balance and raises the version.
            r is Ok ==> old(self).register().contains_key(next.channel_id@) && seq_sum(
                next.balances@,
            ) == seq_sum(old(self).register()[next.channel_id@].state.balances@)
                && old(self).register()[next.channel_id@].state.version < next.version,
    {
        Self::validate_signed_by(&params, &next, &sig, signer)?;
        if params.app == self.config.no_app {
            return Err(Error::NoApp);
        }
        let approved = match self.state_register.get(&next.channel_id) {
            None => return Err(Error::UnknownChannel),
            Some(dispute) => {
                match dispute.phase {
                    Phase::Register => {
                        if now < dispute.timeout {
                            return Err(Error::TooEarly);
                        }
                    },
                    Phase::Progress => {},
                    Phase::Conclude => return Err(Error::AlreadyConcluded),
                }
                Self::valid_transition::<A>(&params, &dispute.state, &next, signer)
            },
        };
        let ghost before = self.state_register@;
        let r = self.apply_progress(&params, next, approved);
        assert(progressed(before, params, next, approved, r, self.state_register@));
        r
    }

    /// Concludes a disputed channel once its timeout has passed, and pushes
    /// the balances of its registered state into the ledger. Concluding a
    /// concluded channel again succeeds without effect.
    /// A participant list in which a funding id repeats is refused with
    /// `InvalidOutcome`: a repeated participant's deposit would be counted
    /// twice, and the outcome could then pay out more than was deposited.
    pub fn conclude(&mut self, params: Params, now: Seconds) -> (r: Result<Option<Event>, Error>)
        requires
            old(self).wf(),
        ensures
            final(self).wf(),
            // Concluding manufactures no funds.
            r is Ok ==> solvent(
                old(self).ledger(),
                final(self).ledger(),
                fids_of(params.id(), params.participants@),
            ) || final(self).ledger() == old(self).ledger(),
            versions_kept(old(self).register(), final(self).register()),
            final(self).config() == old(self).config(),
            match conclude_error(old(self).config(), old(self).register(), params, now) {
                Some(e) => r == Err::<Option<Event>, Error>(e) && final(self).register() == old(
                    self,
                ).register() && final(self).ledger() == old(self).ledger(),
                None => {
                    let rec = old(self).register()[params.id()];
                    if rec.phase == Phase::Conclude {
                        &&& r == Ok::<Option<Event>, Error>(None)
                        &&& final(self).register() == old(self).register()
                        &&& final(self).ledger() == old(self).ledger()
                    } else {
                        &&& r matches Ok(Some(Event::Concluded(c))) && c@ == params.id()
                        &&& final(self).ledger() == pushed(
                            old(self).ledger(),
                            fids_of(params.id(), params.participants@),
                            rec.state.balances@,
                        )
                        &&& final(self).register() == old(self).register().insert(
                            params.id(),
                            RegisteredState { phase: Phase::Conclude, state: rec.state, timeout: 0 },
                        )
                    }
                },
            },
    {
        if params.participants.len() > u32::MAX as usize {
            return Err(Error::UnknownChannel);
        }
        let channel_id = params.channel_id();
        let balances = match self.state_register.get(&channel_id) {
            None => return Err(Error::UnknownChannel),
            Some(dispute) => {
                if let Phase::Conclude = dispute.phase {
                    return Ok(None);
                }
                let has_app = params.app != self.config.no_app;
                let extra: u64 = if let Phase::Register = dispute.phase {
                    if has_app {
                        params.challenge_duration
                    } else {
                        0
                    }
                } else {
                    0
                };
                if (now as u128) < (dispute.timeout as u128) + (extra as u128) {
                    return Err(Error::ConcludedTooEarly);
                }
                let balances = dispute.state.balances.clone();
                assert(balances@ =~= dispute.state.balances@);
                balances
            },
        };
        self.push_outcome(&channel_id, &params.participants, &balances)?;
        let ghost reg = self.state_register@;
        let rec = match self.state_register.take(&channel_id) {
            Some(rec) => rec,
            None => return Err(Error::UnknownChannel),
        };
        self.state_register.insert(
            channel_id,
            RegisteredState { phase: Phase::Conclude, state: rec.state, timeout: 0 },
        );
        assert(self.state_register@ =~= reg.insert(
            channel_id@,
            RegisteredState { phase: Phase::Conclude, state: rec.state, timeout: 0 },
        ));
        Ok(Some(Event::Concluded(channel_id)))
    }

    /// Concludes a channel at once with a final state that all participants
    /// signed, whatever dispute is running. Repeating it with a state of the
    /// concluded version succeeds without effect.
    /// A participant list in which a funding id repeats is refused with
    /// `InvalidOutcome`: a repeated participant's deposit would be counted
    /// twice, and the outcome could then pay out more than was deposited.
    pub fn conclude_final(&mut self, params: Params, state: State, state_sigs: Vec<Sig>) -> (r: Result<
        Option<Event>,
        Error,
    >)
        requires
            old(self).wf(),
        ensures
            final(self).wf(),
            final(self).config() == old(self).config(),
            // Concluding manufactures no funds.
            r is Ok ==> solvent(
                old(self).ledger(),
                final(self).ledger(),
                fids_of(state.channel_id@, params.participants@),
            ) || final(self).ledger() == old(self).ledger(),
            // The version drops only when a dispute at a higher version is overridden.
            !(old(self).register().contains_key(state.channel_id@) && old(
                self,
            ).register()[state.channel_id@].state.version > state.version) ==> versions_kept(
                old(self).register(),
                final(self).register(),
            ),
            match conclude_final_error(old(self).config(), old(self).register(), params, state, state_sigs@) {
                Some(e) => r == Err::<Option<Event>, Error>(e) && final(self).register() == old(
                    self,
                ).register() && final(self).ledger() == old(self).ledger(),
                None => if is_concluded(old(self).register(), state.channel_id@) {
                    &&& r == Ok::<Option<Event>, Error>(None)
                    &&& final(self).register() == old(self).register()
                    &&& final(self).ledger() == old(self).ledger()
                } else {
                    &&& r == Ok::<Option<Event>, Error>(Some(Event::Concluded(state.channel_id)))
                    &&& final(self).ledger() == pushed(
                        old(self).ledger(),
                        fids_of(state.channel_id@, params.participants@),
                        state.balances@,
                    )
                    &&& final(self).register() == old(self).register().insert(
                        state.channel_id@,
                        RegisteredState { phase: Phase::Conclude, state, timeout: 0 },
                    )
                },
            },
    {
        if !state.finalized {
            return Err(Error::StateNotFinal);
        }
        self.validate_fully_signed(&params, &state, &state_sigs)?;
        let channel_id = state.channel_id;
        if let Some(dispute) = self.state_register.get(&channel_id) {
            if let Phase::Conclude = dispute.phase {
                if dispute.state.version != state.version {
                    return Err(Error::ConcludedWithDifferentVersion);
                }
                return Ok(None);
            }
        }
        self.push_outcome(&channel_id, &params.participants, &state.balances)?;
        self.state_register.insert(
            channel_id,
            RegisteredState { phase: Phase::Conclude, state, timeout: 0 },
        );
        Ok(Some(Event::Concluded(channel_id)))
    }

    /// Pays out the deposit of `withdrawal.part` in a concluded channel, on the
    /// participant's signature: the entry leaves the ledger, and the host
    /// transfers the returned amount to `withdrawal.receiver`; if that transfer
    /// fails, it puts back its clone of the adjudicator from before the call.
    pub fn withdraw(&mut self, withdrawal: crate::types::Withdrawal, withdrawal_sig: Sig) -> (r: Result<
        Event,
        Error,
    >)
        requires
            old(self).wf(),
        ensures
            final(self).wf(),
            final(self).config() == old(self).config(),
            final(self).register() == old(self).register(),
            match withdraw_error(old(self).register(), old(self).ledger(), withdrawal, withdrawal_sig) {
                Some(e) => r == Err::<Event, Error>(e) && final(self).ledger() == old(self).ledger(),
                None => {
                    let fid = funding_id_of(withdrawal.channel_id@, withdrawal.part@);
                    &&& r matches Ok(Event::Withdrawn(f, to, amount)) && f@ == fid && to
                        == withdrawal.receiver && amount == old(self).ledger()[fid]
                    &&& final(self).ledger() == old(self).ledger().remove(fid)
                },
            },
    {
        if !withdrawal.validate_sig(&withdrawal_sig) {
            return Err(Error::InvalidSignature);
        }
        match self.state_register.get(&withdrawal.channel_id) {
            None => return Err(Error::UnknownChannel),
            Some(dispute) => {
                match dispute.phase {
                    Phase::Conclude => {},
                    _ => return Err(Error::NotConcluded),
                }
            },
        }
        let funding_id = Self::calc_funding_id(withdrawal.channel_id, &withdrawal.part);
        match self.deposits.take(&funding_id) {
            Some(amount) => Ok(Event::Withdrawn(funding_id, withdrawal.receiver, amount)),
            None => Err(Error::UnknownDeposit),
        }
    }

    /// Exposes the outcome push on its own, for tests of the ledger.
    /// A participant list in which a funding id repeats is refused with
    /// `InvalidOutcome`: a repeated participant's deposit would be counted
    /// twice, and the outcome could then pay out more than was deposited.
    pub fn push_outcome_test(&mut self, channel: &ChannelId, parts: &Vec<Pk>, outcome: &Vec<
        Balance,
    >) -> (r: Result<(), Error>)
        requires
            old(self).wf(),
        ensures
            final(self).wf(),
            final(self).config() == old(self).config(),
            final(self).register() == old(self).register(),
            match outcome_error(channel@, parts@, outcome@) {
                Some(e) => r == Err::<(), Error>(e) && final(self).ledger() == old(self).ledger(),
                None => r is Ok && final(self).ledger() == pushed(
                    old(self).ledger(),
                    fids_of(channel@, parts@),
                    outcome@,
                ),
            },
            // No outcome manufactures funds: the participants' funding ids are
            // distinct, and together they hold at most what they held before.
            r is Ok ==> solvent(old(self).ledger(), final(self).ledger(), fids_of(channel@, parts@)),
    {
        self.push_outcome(channel, parts, outcome)
    }
}

} // verus!
