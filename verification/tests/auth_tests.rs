use contacts_bridge::auth::AccessDecision;
use contacts_bridge::auth::AuthorizationStatus;
use contacts_bridge::auth::DecisionCell;
use contacts_bridge::auth::GateStep;
use contacts_bridge::auth::gate_decision;
use contacts_bridge::auth::resolve_access_decision;
use contacts_bridge::auth::status_from_code;

#[test]
fn status_codes_decode() {
    assert_eq!(status_from_code(0), Some(AuthorizationStatus::NotDetermined));
    assert_eq!(status_from_code(1), Some(AuthorizationStatus::Restricted));
    assert_eq!(status_from_code(2), Some(AuthorizationStatus::Denied));
    assert_eq!(status_from_code(3), Some(AuthorizationStatus::Authorized));
    assert_eq!(status_from_code(99), None);
    assert_eq!(status_from_code(-1), None);
}

#[test]
fn gate_proceeds_only_when_authorized() {
    assert_eq!(
        gate_decision(Some(AuthorizationStatus::Authorized)),
        GateStep::Proceed
    );
    assert_eq!(
        gate_decision(Some(AuthorizationStatus::NotDetermined)),
        GateStep::Prompt
    );
    assert_eq!(gate_decision(Some(AuthorizationStatus::Denied)), GateStep::Refuse);
    assert_eq!(
        gate_decision(Some(AuthorizationStatus::Restricted)),
        GateStep::Refuse
    );
    assert_eq!(gate_decision(None), GateStep::Refuse);
}

#[test]
fn granted_decision_succeeds() {
    let d = AccessDecision { granted: true, message: None };
    assert!(resolve_access_decision(&d).is_ok());
}

#[test]
fn denied_decision_carries_message() {
    let d = AccessDecision {
        granted: false,
        message: Some("User declined".to_string()),
    };
    let e = resolve_access_decision(&d).unwrap_err();
    assert_eq!(e.message(), "User declined");
}

#[test]
fn denied_decision_without_message_uses_fallback() {
    let d = AccessDecision { granted: false, message: None };
    let e = resolve_access_decision(&d).unwrap_err();
    assert_eq!(e.message(), "Contacts access was not granted.");
}

#[test]
fn decision_cell_hands_over_exactly_one_decision() {
    let mut cell = DecisionCell::new();
    assert!(cell.is_empty());
    assert!(!cell.is_filled());
    cell.fill(AccessDecision {
        granted: true,
        message: Some("ok".to_string()),
    });
    assert!(cell.is_filled());
    assert!(!cell.is_empty());
    let d = cell.take_decision();
    assert!(d.granted);
    assert_eq!(d.message, Some("ok".to_string()));
    assert!(!cell.is_filled());
    assert!(!cell.is_empty());
}
