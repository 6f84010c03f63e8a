//! The offer/answer automaton of a peer connection.
use vstd::prelude::*;

verus! {

/// The signaling state of a peer connection.
#[derive(Clone, Copy, Debug, PartialEq, Eq, Structural)]
pub enum SignalingState {
    Stable,
    HaveLocalOffer,
    HaveRemoteOffer,
    HaveLocalPrAnswer,
    HaveRemotePrAnswer,
    Closed,
}

/// The role of a session description in a negotiation.
#[derive(Clone, Copy, Debug, PartialEq, Eq, Structural)]
pub enum SdpType {
    Offer,
    Answer,
}

/// Errors of the control plane, surfaced to the caller of an operation.
#[derive(Clone, Copy, Debug, PartialEq, Eq, Structural)]
pub enum RtcError {
    /// The operation is not allowed in the current signaling state.
    InvalidState,
    /// The peer connection has been closed.
    Closed,
}

/// The state reached by applying a local description of type `t` in state `s`,
/// or `None` when no edge of the automaton allows it.
pub open spec fn local_edge(s: SignalingState, t: SdpType) -> Option<SignalingState> {
    match (s, t) {
        (SignalingState::Stable, SdpType::Offer) => Some(SignalingState::HaveLocalOffer),
        (SignalingState::HaveRemoteOffer, SdpType::Answer) => Some(SignalingState::Stable),
        _ => None,
    }
}

/// The state reached by applying a remote description of type `t` in state `s`,
/// or `None` when no edge of the automaton allows it.
pub open spec fn remote_edge(s: SignalingState, t: SdpType) -> Option<SignalingState> {
    match (s, t) {
        (SignalingState::Stable, SdpType::Offer) => Some(SignalingState::HaveRemoteOffer),
        (SignalingState::HaveLocalOffer, SdpType::Answer) => Some(SignalingState::Stable),
        _ => None,
    }
}

/// The outcome of a transition on a missing edge: `Closed` once the
/// connection is torn down, `InvalidState` otherwise.
pub open spec fn refusal(s: SignalingState) -> RtcError {
    if s == SignalingState::Closed {
        RtcError::Closed
    } else {
        RtcError::InvalidState
    }
}

fn refuse(s: SignalingState) -> (r: RtcError)
    ensures
        r == refusal(s),
{
    if s == SignalingState::Closed {
        RtcError::Closed
    } else {
        RtcError::InvalidState
    }
}

/// Transition taken by `setLocalDescription`.
pub fn apply_local(s: SignalingState, t: SdpType) -> (r: Result<SignalingState, RtcError>)
    ensures
        match local_edge(s, t) {
            Some(n) => r == Ok::<SignalingState, RtcError>(n),
            None => r == Err::<SignalingState, RtcError>(refusal(s)),
        },
{
    match (s, t) {
        (SignalingState::Stable, SdpType::Offer) => Ok(SignalingState::HaveLocalOffer),
        (SignalingState::HaveRemoteOffer, SdpType::Answer) => Ok(SignalingState::Stable),
        _ => Err(refuse(s)),
    }
}

/// Transition taken by `setRemoteDescription`; a remote offer while a local
/// offer is pending is glare and is refused.
pub fn apply_remote(s: SignalingState, t: SdpType) -> (r: Result<SignalingState, RtcError>)
    ensures
        match remote_edge(s, t) {
            Some(n) => r == Ok::<SignalingState, RtcError>(n),
            None => r == Err::<SignalingState, RtcError>(refusal(s)),
        },
{
    match (s, t) {
        (SignalingState::Stable, SdpType::Offer) => Ok(SignalingState::HaveRemoteOffer),
        (SignalingState::HaveLocalOffer, SdpType::Answer) => Ok(SignalingState::Stable),
        _ => Err(refuse(s)),
    }
}

/// Whether `createOffer` may run in state `s`.
pub open spec fn offer_allowed(s: SignalingState) -> bool {
    s == SignalingState::Stable || s == SignalingState::HaveLocalOffer
}

/// Checks that `createOffer` may run: only in `Stable` or `HaveLocalOffer`.
pub fn check_create_offer(s: SignalingState) -> (r: Result<(), RtcError>)
    ensures
        r is Ok <==> offer_allowed(s),
        r is Err ==> r == Err::<(), RtcError>(refusal(s)),
{
    match s {
        SignalingState::Stable | SignalingState::HaveLocalOffer => Ok(()),
        _ => Err(refuse(s)),
    }
}

/// Checks that `createAnswer` may run: only in `HaveRemoteOffer`.
pub fn check_create_answer(s: SignalingState) -> (r: Result<(), RtcError>)
    ensures
        r is Ok <==> s == SignalingState::HaveRemoteOffer,
        r is Err ==> r == Err::<(), RtcError>(refusal(s)),
{
    match s {
        SignalingState::HaveRemoteOffer => Ok(()),
        _ => Err(refuse(s)),
    }
}

} // verus!
