//! The bridge's end-to-end decision: from the authorization status, the
//! prompt's decision and the enumeration outcome to the fetch result. The
//! platform shell performs the native calls and hands their plain results
//! here; every decision between them is made and checked in this function.

use vstd::prelude::*;

use crate::auth::AccessDecision;
use crate::auth::AuthorizationStatus;
use crate::auth::GateStep;
use crate::auth::gate_decision;
use crate::auth::gate_refusal;
use crate::auth::resolve_access_decision;
use crate::enumerate::collect_contact_names;
use crate::enumerate::derived_name_set;
use crate::enumerate::strictly_sorted;
use crate::enumerate::views_of;
use crate::errors::BridgeError;
use crate::errors::NativeError;
use crate::errors::RequestFault;
use crate::names::ContactRecord;

verus! {

/// What the synchronous enumerate call reported: the records the per-contact
/// callback saw, or failure, with the native error when one was supplied.
#[derive(Debug)]
pub enum EnumerationOutcome {
    Reported(Vec<ContactRecord>),
    Failed(Option<NativeError>),
}

/// Whether authorization ends with access granted: the status is authorized,
/// or the permission request was issued and its decision granted access.
pub open spec fn access_granted_spec(
    status: Option<AuthorizationStatus>,
    prompt: Option<AccessDecision>,
) -> bool {
    status == Option::Some(AuthorizationStatus::Authorized) || (status == Option::Some(
        AuthorizationStatus::NotDetermined,
    ) && (prompt matches Option::Some(d) && d.granted))
}

/// Drives one fetch over the plain values the platform reported: the current
/// status, the decision the permission callback delivered (the user is asked
/// only on a not-yet-determined status, so that decision is read only then),
/// and what enumeration reported once access was granted. Any other status
/// fails fast, before any request and before enumeration.
pub fn fetch_outcome(
    status: Option<AuthorizationStatus>,
    prompt: Option<AccessDecision>,
    outcome: EnumerationOutcome,
) -> (r: Result<Vec<String>, BridgeError>)
    ensures
        status != Option::Some(AuthorizationStatus::Authorized) && status != Option::Some(
            AuthorizationStatus::NotDetermined,
        ) ==> r == Result::<Vec<String>, BridgeError>::Err(
            BridgeError::AuthorizationDenied { prompted: false, message: Option::None },
        ),
        status == Option::Some(AuthorizationStatus::NotDetermined) ==> match prompt {
            Option::None => r == Result::<Vec<String>, BridgeError>::Err(
                BridgeError::AuthorizationRequest(RequestFault::NoDecision),
            ),
            Option::Some(d) => !d.granted ==> r == Result::<Vec<String>, BridgeError>::Err(
                BridgeError::AuthorizationDenied { prompted: true, message: d.message },
            ),
        },
        access_granted_spec(status, prompt) ==> match outcome {
            EnumerationOutcome::Failed(e) => r == Result::<Vec<String>, BridgeError>::Err(
                BridgeError::Enumeration(e),
            ),
            EnumerationOutcome::Reported(contacts) => r matches Result::Ok(names)
                && strictly_sorted(views_of(names@)) && views_of(names@).to_set()
                == derived_name_set(contacts@) && (forall|k: int|
                0 <= k < names@.len() ==> views_of(names@)[k].len() > 0),
        },
{
    match gate_decision(status) {
        GateStep::Refuse => {
            return Result::Err(gate_refusal());
        },
        GateStep::Prompt => {
            match &prompt {
                Option::None => {
                    return Result::Err(BridgeError::AuthorizationRequest(RequestFault::NoDecision));
                },
                Option::Some(d) => {
                    match resolve_access_decision(d) {
                        Result::Ok(_) => {},
                        Result::Err(e) => {
                            return Result::Err(e);
                        },
                    }
                },
            }
        },
        GateStep::Proceed => {},
    }
    match outcome {
        EnumerationOutcome::Failed(e) => Result::Err(BridgeError::Enumeration(e)),
        EnumerationOutcome::Reported(contacts) => Result::Ok(collect_contact_names(&contacts)),
    }
}

} // verus!
