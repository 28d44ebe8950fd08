//! The extension point for application-specific transition rules.

use vstd::prelude::*;
use crate::types::{Params, ParticipantIndex, State};

verus! {

/// The rules of the applications that govern channels: whether a step that a
/// single participant signed leads validly from one state to the next, and
/// what checking such a step costs. Hosts implement it for their applications.
pub trait AppRegistry {
    /// The application's verdict on the step from `from` to `to` by `signer`
    /// in the channel of `params`. An implementor outside verified code gives
    /// it as an ordinary function with the same rule as `valid_transition`.
    spec fn approves(params: Params, from: State, to: State, signer: ParticipantIndex) -> bool;

    /// Whether `signer` may advance the channel of `params` from `from` to `to`.
    fn valid_transition(params: &Params, from: &State, to: &State, signer: ParticipantIndex) -> (r: bool)
        ensures
            r == Self::approves(*params, *from, *to, signer),
    ;

    /// The cost of checking a transition of the channel of `params`.
    fn transition_weight(params: &Params) -> u64;
}

/// The registry of a host without applications: it approves no step.
pub struct NoAppRegistry;

impl AppRegistry for NoAppRegistry {
    open spec fn approves(params: Params, from: State, to: State, signer: ParticipantIndex) -> bool {
        false
    }

    fn valid_transition(_params: &Params, _from: &State, _to: &State, _signer: ParticipantIndex) -> (r: bool) {
        false
    }

    fn transition_weight(_params: &Params) -> u64 {
        0
    }
}

} // verus!
