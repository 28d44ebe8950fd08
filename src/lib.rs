//! State-channel adjudication: a per-channel dispute and conclusion state
//! machine, its signature rules, and the deposit accounting that keeps
//! participants from withdrawing more than was deposited.

pub mod encoding;
pub mod crypto;
pub mod types;
pub mod store;
pub mod ledger;
pub mod app;
pub mod pallet;
pub mod rules;
pub mod laws;

pub use app::{AppRegistry, NoAppRegistry};
pub use pallet::{Config, Error, Event, Pallet};
pub use types::{
    AccountId, AppId, Balance, ChannelId, Funding, FundingId, HashValue, Nonce, Params,
    ParticipantIndex, Phase, Pk, RegisteredState, Seconds, Sig, State, Version, Withdrawal,
};
