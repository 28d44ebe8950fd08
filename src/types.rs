//! Channel types: parameters, off-chain states, registered states,
//! withdrawal authorizations and funding keys, with their canonical
//! encodings, identifiers and signature checks.

use vstd::prelude::*;
use crate::crypto::{ecdsa_verifies, ecdsa_verify, keccak_256, keccak_256_of};
use crate::encoding::{
    compact_bytes, le_bytes, put_array, put_bool, put_len, put_slice, put_u64,
};

verus! {

/// A 32-byte content hash; channel and funding identifiers are such hashes.
pub type HashValue = [u8; 32];

/// Identifier of a channel: the hash of its [`Params`].
pub type ChannelId = [u8; 32];

/// Identifier of one participant's deposit in one channel.
pub type FundingId = [u8; 32];

/// A compressed secp256k1 public key.
pub type Pk = [u8; 33];

/// A recoverable secp256k1 signature.
pub type Sig = [u8; 65];

/// The uniqueness salt of a channel.
pub type Nonce = [u8; 32];

/// An on-chain account that receives withdrawn funds.
pub type AccountId = u64;

/// An amount of funds.
pub type Balance = u64;

/// The version of an off-chain state.
pub type Version = u64;

/// A point in time, or a duration, in seconds.
pub type Seconds = u64;

/// Identifier of the application that governs a channel.
pub type AppId = u64;

/// Position of a participant in [`Params::participants`].
pub type ParticipantIndex = u32;

/// Concatenated public keys, as SCALE lays out the items of a list of keys.
pub open spec fn pks_bytes(ps: Seq<Pk>) -> Seq<u8>
    decreases ps.len(),
{
    if ps.len() == 0 {
        Seq::empty()
    } else {
        pks_bytes(ps.drop_last()) + ps.last()@
    }
}

/// Concatenated little-endian `u64`s, as SCALE lays out the items of a list of them.
pub open spec fn u64s_bytes(xs: Seq<u64>) -> Seq<u8>
    decreases xs.len(),
{
    if xs.len() == 0 {
        Seq::empty()
    } else {
        u64s_bytes(xs.drop_last()) + le_bytes(xs.last() as nat, 8)
    }
}

/// The identifier of the deposit of participant `pk` in channel `channel`.
pub open spec fn funding_id_of(channel: Seq<u8>, pk: Seq<u8>) -> Seq<u8> {
    keccak_256_of(channel + pk)
}

/// Fixed parameters of a channel, agreed on by all participants before it opens.
#[derive(Clone, Debug, PartialEq, Eq)]
pub struct Params {
    /// Salt that makes these parameters unique; picked at random.
    pub nonce: Nonce,
    /// The participants' keys; a participant's position is its signer index.
    pub participants: Vec<Pk>,
    /// Length of each challenge window.
    pub challenge_duration: Seconds,
    /// The application that governs the channel, or the configured "no app" id.
    pub app: AppId,
}

/// An off-chain state of a channel.
#[derive(Clone, Debug, PartialEq, Eq)]
pub struct State {
    /// The channel, as computed by [`Params::channel_id`].
    pub channel_id: ChannelId,
    /// Higher versions override lower ones.
    pub version: Version,
    /// One balance per participant; the balances of the concluding state are the outcome.
    pub balances: Vec<Balance>,
    /// Set on the last state of a channel.
    pub finalized: bool,
    /// Application data, opaque to the adjudicator.
    pub data: Vec<u8>,
}

/// Phase of a registered channel.
#[derive(Clone, Copy, Debug, PartialEq, Eq, Structural)]
pub enum Phase {
    /// A dispute is open and can be overridden by a newer fully signed state.
    Register,
    /// The state was advanced by single-signer application steps.
    Progress,
    /// The channel is concluded; only withdrawals remain.
    Conclude,
}

/// The on-chain record of a channel: its phase, last accepted state and timeout.
#[derive(Clone, Debug, PartialEq, Eq)]
pub struct RegisteredState {
    pub phase: Phase,
    pub state: State,
    /// The time after which the phase may advance; zero once concluded.
    pub timeout: Seconds,
}

/// An authorization, signed by `part`, to pay `part`'s outcome to `receiver`.
#[derive(Clone, Copy, Debug, PartialEq, Eq)]
pub struct Withdrawal {
    pub channel_id: ChannelId,
    /// The participant whose deposit is debited.
    pub part: Pk,
    /// The account that is credited.
    pub receiver: AccountId,
}

/// The key of one participant's deposit in one channel.
#[derive(Clone, Copy, Debug, PartialEq, Eq)]
pub struct Funding {
    pub channel: ChannelId,
    pub part: Pk,
}

impl Params {
    /// Whether SCALE can encode these parameters (list lengths fit a `u32`).
    pub open spec fn encodable(&self) -> bool {
        self.participants@.len() <= u32::MAX
    }

    /// The canonical encoding: nonce, participants, challenge duration, app.
    pub open spec fn encoded(&self) -> Seq<u8> {
        self.nonce@ + compact_bytes(self.participants@.len()) + pks_bytes(self.participants@)
            + le_bytes(self.challenge_duration as nat, 8) + le_bytes(self.app as nat, 8)
    }

    /// The channel identifier: the hash of the encoding.
    pub open spec fn id(&self) -> Seq<u8> {
        keccak_256_of(self.encoded())
    }

    pub fn encode(&self) -> (r: Vec<u8>)
        requires
            self.encodable(),
        ensures
            r@ == self.encoded(),
    {
        let mut out: Vec<u8> = Vec::new();
        put_array(&mut out, &self.nonce);
        put_len(&mut out, self.participants.len());
        let ghost head = out@;
        let mut i: usize = 0;
        while i < self.participants.len()
            invariant
                i <= self.participants@.len(),
                out@ == head + pks_bytes(self.participants@.subrange(0, i as int)),
            decreases self.participants@.len() - i,
        {
            put_array(&mut out, &self.participants[i]);
            proof {
                let s = self.participants@.subrange(0, i + 1);
                assert(s.drop_last() =~= self.participants@.subrange(0, i as int));
            }
            i = i + 1;
        }
        assert(self.participants@.subrange(0, i as int) =~= self.participants@);
        put_u64(&mut out, self.challenge_duration);
        put_u64(&mut out, self.app);
        assert(out@ =~= self.encoded());
        out
    }

    /// Calculates the channel identifier of these parameters.
    pub fn channel_id(&self) -> (r: ChannelId)
        requires
            self.encodable(),
        ensures
            r@ == self.id(),
    {
        let encoded = self.encode();
        keccak_256(&encoded)
    }
}

impl State {
    /// Whether SCALE can encode this state (list lengths fit a `u32`).
    pub open spec fn encodable(&self) -> bool {
        self.balances@.len() <= u32::MAX && self.data@.len() <= u32::MAX
    }

    /// The canonical encoding: channel id, version, balances, finalized flag, data.
    pub open spec fn encoded(&self) -> Seq<u8> {
        self.channel_id@ + le_bytes(self.version as nat, 8) + compact_bytes(
            self.balances@.len(),
        ) + u64s_bytes(self.balances@) + seq![if self.finalized { 1u8 } else { 0u8 }]
            + compact_bytes(self.data@.len()) + self.data@
    }

    /// Whether `sig` is a signature of this state by `pk`.
    pub open spec fn signed_by(&self, sig: Sig, pk: Pk) -> bool {
        self.encodable() && ecdsa_verifies(sig@, self.encoded(), pk@)
    }

    /// The message that participants sign for this state.
    pub fn encode(&self) -> (r: Vec<u8>)
        requires
            self.encodable(),
        ensures
            r@ == self.encoded(),
    {
        let mut out: Vec<u8> = Vec::new();
        put_array(&mut out, &self.channel_id);
        put_u64(&mut out, self.version);
        put_len(&mut out, self.balances.len());
        let ghost head = out@;
        let mut i: usize = 0;
        while i < self.balances.len()
            invariant
                i <= self.balances@.len(),
                out@ == head + u64s_bytes(self.balances@.subrange(0, i as int)),
            decreases self.balances@.len() - i,
        {
            put_u64(&mut out, self.balances[i]);
            proof {
                let s = self.balances@.subrange(0, i + 1);
                assert(s.drop_last() =~= self.balances@.subrange(0, i as int));
            }
            i = i + 1;
        }
        assert(self.balances@.subrange(0, i as int) =~= self.balances@);
        put_bool(&mut out, self.finalized);
        put_len(&mut out, self.data.len());
        put_slice(&mut out, self.data.as_slice());
        assert(out@ =~= self.encoded());
        out
    }

    /// Field-wise equality, with lists compared by their contents.
    pub open spec fn equals(&self, o: &State) -> bool {
        &&& self.channel_id@ == o.channel_id@
        &&& self.version == o.version
        &&& self.balances@ == o.balances@
        &&& self.finalized == o.finalized
        &&& self.data@ == o.data@
    }

    /// A copy of this state.
    pub fn duplicate(&self) -> (r: State)
        ensures
            r.equals(self),
    {
        let balances = self.balances.clone();
        let data = self.data.clone();
        assert(balances@ =~= self.balances@);
        assert(data@ =~= self.data@);
        State {
            channel_id: self.channel_id,
            version: self.version,
            balances,
            finalized: self.finalized,
            data,
        }
    }

    /// Returns whether `sig` is a valid signature of this state created by `pk`.
    /// A state too long to encode has no valid signature.
    pub fn validate_sig(&self, sig: &Sig, pk: &Pk) -> (r: bool)
        ensures
            r == self.signed_by(*sig, *pk),
    {
        if self.balances.len() > u32::MAX as usize || self.data.len() > u32::MAX as usize {
            return false;
        }
        let msg = self.encode();
        ecdsa_verify(sig, &msg, pk)
    }
}

impl Withdrawal {
    /// The canonical encoding: channel id, participant, receiver.
    pub open spec fn encoded(&self) -> Seq<u8> {
        self.channel_id@ + self.part@ + le_bytes(self.receiver as nat, 8)
    }

    /// Whether `sig` is a signature of this withdrawal by the debited participant.
    pub open spec fn signed(&self, sig: Sig) -> bool {
        ecdsa_verifies(sig@, self.encoded(), self.part@)
    }

    /// The message that the debited participant signs.
    pub fn encode(&self) -> (r: Vec<u8>)
        ensures
            r@ == self.encoded(),
    {
        let mut out: Vec<u8> = Vec::new();
        put_array(&mut out, &self.channel_id);
        put_array(&mut out, &self.part);
        put_u64(&mut out, self.receiver);
        assert(out@ =~= self.encoded());
        out
    }

    /// Returns whether `sig` is a valid signature of this withdrawal created by
    /// the participant whose funds are claimed.
    pub fn validate_sig(&self, sig: &Sig) -> (r: bool)
        ensures
            r == self.signed(*sig),
    {
        let msg = self.encode();
        ecdsa_verify(sig, &msg, &self.part)
    }
}

impl Funding {
    /// The canonical encoding: channel id, then participant.
    pub fn encode(&self) -> (r: Vec<u8>)
        ensures
            r@ == self.channel@ + self.part@,
    {
        let mut out: Vec<u8> = Vec::new();
        put_array(&mut out, &self.channel);
        put_array(&mut out, &self.part);
        out
    }

    /// Calculates the funding identifier of a participant in a channel.
    pub fn id(&self) -> (r: FundingId)
        ensures
            r@ == funding_id_of(self.channel@, self.part@),
    {
        let encoded = self.encode();
        keccak_256(&encoded)
    }
}

} // verus!
