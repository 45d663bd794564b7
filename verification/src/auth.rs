//! The authorization gate: status decoding, the prompt decision, the
//! one-shot decision cell the permission callback fills, and the reading of
//! the decision it carries.

use vstd::prelude::*;

use crate::errors::BridgeError;

verus! {

/// The OS-tracked permission state for reading the contacts database.
#[derive(Debug, Clone, Copy, PartialEq, Eq, Structural)]
pub enum AuthorizationStatus {
    NotDetermined,
    Restricted,
    Denied,
    Authorized,
}

/// The status a native status code stands for; codes the framework does not
/// document decode to nothing and are treated as "not authorized".
pub open spec fn status_from_code_spec(code: i64) -> Option<AuthorizationStatus> {
    if code == 0 {
        Option::Some(AuthorizationStatus::NotDetermined)
    } else if code == 1 {
        Option::Some(AuthorizationStatus::Restricted)
    } else if code == 2 {
        Option::Some(AuthorizationStatus::Denied)
    } else if code == 3 {
        Option::Some(AuthorizationStatus::Authorized)
    } else {
        Option::None
    }
}

/// Decodes the native authorization status code.
pub fn status_from_code(code: i64) -> (status: Option<AuthorizationStatus>)
    ensures
        status == status_from_code_spec(code),
{
    if code == 0 {
        Option::Some(AuthorizationStatus::NotDetermined)
    } else if code == 1 {
        Option::Some(AuthorizationStatus::Restricted)
    } else if code == 2 {
        Option::Some(AuthorizationStatus::Denied)
    } else if code == 3 {
        Option::Some(AuthorizationStatus::Authorized)
    } else {
        Option::None
    }
}

/// The authorization step's next move: proceed without I/O, refuse at once,
/// or issue the one-time permission request and wait for its decision.
#[derive(Debug, Clone, Copy, PartialEq, Eq, Structural)]
pub enum GateStep {
    Proceed,
    Refuse,
    Prompt,
}

/// Chooses the next move from the current status. Only an authorized status
/// proceeds, only a not-yet-determined status asks the user; every other
/// status (denied, restricted, or unknown) refuses at once.
pub fn gate_decision(status: Option<AuthorizationStatus>) -> (step: GateStep)
    ensures
        step == GateStep::Proceed <==> status == Option::Some(AuthorizationStatus::Authorized),
        step == GateStep::Prompt <==> status == Option::Some(AuthorizationStatus::NotDetermined),
        step == GateStep::Refuse <==> (status != Option::Some(AuthorizationStatus::Authorized)
            && status != Option::Some(AuthorizationStatus::NotDetermined)),
{
    match status {
        Option::Some(AuthorizationStatus::Authorized) => GateStep::Proceed,
        Option::Some(AuthorizationStatus::NotDetermined) => GateStep::Prompt,
        _ => GateStep::Refuse,
    }
}

/// The error reported on refusing without asking the user.
pub fn gate_refusal() -> (e: BridgeError)
    ensures
        e == (BridgeError::AuthorizationDenied { prompted: false, message: Option::None::<String> }),
{
    BridgeError::AuthorizationDenied { prompted: false, message: Option::None }
}

/// The permission callback's decision: whether access was granted, with the
/// message carried by the native error object, if any.
#[derive(Debug, PartialEq, Eq, Clone)]
pub struct AccessDecision {
    pub granted: bool,
    pub message: Option<String>,
}

/// Turns the callback's one decision into the authorization outcome:
/// granted succeeds; denied fails with the carried message, or with the
/// generic fallback when none was carried.
pub fn resolve_access_decision(decision: &AccessDecision) -> (r: Result<(), BridgeError>)
    ensures
        decision.granted <==> r is Ok,
        !decision.granted ==> r == Result::<(), BridgeError>::Err(
            BridgeError::AuthorizationDenied { prompted: true, message: decision.message },
        ),
{
    if decision.granted {
        Result::Ok(())
    } else {
        Result::Err(
            BridgeError::AuthorizationDenied { prompted: true, message: decision.message.clone() },
        )
    }
}

/// The one-shot result cell of the permission handoff: written exactly once
/// by the completion callback, read exactly once by the waiting thread. The
/// contracts let a cell be filled only while empty and consumed only once.
#[derive(Debug)]
pub enum DecisionCell {
    Empty,
    Filled(AccessDecision),
    Consumed,
}

impl DecisionCell {
    /// A fresh, unwritten cell.
    pub fn new() -> (c: DecisionCell)
        ensures
            c is Empty,
    {
        DecisionCell::Empty
    }

    /// Whether the producer has written and the consumer not yet read.
    pub fn is_filled(&self) -> (r: bool)
        ensures
            r == (self is Filled),
    {
        match self {
            DecisionCell::Filled(_) => true,
            _ => false,
        }
    }

    /// Whether the cell is still unwritten.
    pub fn is_empty(&self) -> (r: bool)
        ensures
            r == (self is Empty),
    {
        match self {
            DecisionCell::Empty => true,
            _ => false,
        }
    }

    /// The producer's single write.
    pub fn fill(&mut self, decision: AccessDecision)
        requires
            *old(self) is Empty,
        ensures
            *final(self) == DecisionCell::Filled(decision),
    {
        *self = DecisionCell::Filled(decision);
    }

    /// The consumer's single read: hands the decision out and leaves the
    /// cell consumed, so no second read can see it.
    pub fn take_decision(&mut self) -> (d: AccessDecision)
        requires
            *old(self) is Filled,
        ensures
            *final(self) is Consumed,
            *old(self) == DecisionCell::Filled(d),
    {
        let mut taken = DecisionCell::Consumed;
        core::mem::swap(self, &mut taken);
        match taken {
            DecisionCell::Filled(d) => d,
            _ => vstd::pervasive::unreached(),
        }
    }
}

} // verus!
