use contacts_bridge::auth::AccessDecision;
use contacts_bridge::auth::AuthorizationStatus;
use contacts_bridge::enumerate::NameAccumulator;
use contacts_bridge::enumerate::collect_contact_names;
use contacts_bridge::errors::NativeError;
use contacts_bridge::fetch::EnumerationOutcome;
use contacts_bridge::fetch::fetch_outcome;
use contacts_bridge::names::ContactRecord;

fn record(given: &str, family: &str, organization: &str) -> ContactRecord {
    ContactRecord {
        given_name: given.to_string(),
        family_name: family.to_string(),
        organization_name: organization.to_string(),
    }
}

#[test]
fn duplicates_appear_once_and_sorted() {
    let contacts = vec![
        record("Jane", "Doe", ""),
        record("  Jane ", "Doe", ""),
        record("Albert", "Adams", ""),
        record("", "", "Zig"),
    ];
    let names = collect_contact_names(&contacts);
    assert_eq!(names, vec!["Albert Adams", "Jane Doe", "Zig"]);
}

#[test]
fn accumulator_skips_values_already_present() {
    let mut acc = NameAccumulator::new();
    acc.add("Jane Doe".to_string());
    acc.add("Jane Doe".to_string());
    acc.add("Acme Corp".to_string());
    let names = acc.finish();
    assert_eq!(names, vec!["Acme Corp", "Jane Doe"]);
}

#[test]
fn two_runs_over_unchanged_contacts_agree() {
    let contacts = vec![
        record("Jane", "Doe", ""),
        record("", "", "Acme Corp"),
        record("Ada", "Lovelace", ""),
    ];
    let first = fetch_outcome(
        Some(AuthorizationStatus::Authorized),
        None,
        EnumerationOutcome::Reported(contacts.clone()),
    );
    let second = fetch_outcome(
        Some(AuthorizationStatus::Authorized),
        None,
        EnumerationOutcome::Reported(contacts),
    );
    assert_eq!(first.unwrap(), second.unwrap());
}

#[test]
fn end_to_end_authorized_fetch() {
    let contacts = vec![
        record("Jane", "Doe", ""),
        record("", "", "Acme Corp"),
        record("", "", ""),
    ];
    let r = fetch_outcome(
        Some(AuthorizationStatus::Authorized),
        None,
        EnumerationOutcome::Reported(contacts),
    );
    assert_eq!(r.unwrap(), vec!["Acme Corp", "Jane Doe"]);
}

#[test]
fn denied_status_fails_fast_and_ignores_prompt() {
    let generous_prompt = Some(AccessDecision { granted: true, message: None });
    let r = fetch_outcome(
        Some(AuthorizationStatus::Denied),
        generous_prompt,
        EnumerationOutcome::Reported(vec![record("Jane", "Doe", "")]),
    );
    let e = r.unwrap_err();
    assert_eq!(e.message(), "Contacts access is not authorized for this app.");
}

#[test]
fn restricted_status_fails_fast() {
    let r = fetch_outcome(
        Some(AuthorizationStatus::Restricted),
        None,
        EnumerationOutcome::Reported(vec![]),
    );
    assert_eq!(
        r.unwrap_err().message(),
        "Contacts access is not authorized for this app."
    );
}

#[test]
fn declined_prompt_carries_its_message() {
    let r = fetch_outcome(
        Some(AuthorizationStatus::NotDetermined),
        Some(AccessDecision {
            granted: false,
            message: Some("User declined".to_string()),
        }),
        EnumerationOutcome::Reported(vec![]),
    );
    assert_eq!(r.unwrap_err().message(), "User declined");
}

#[test]
fn declined_prompt_without_message_uses_fallback() {
    let r = fetch_outcome(
        Some(AuthorizationStatus::NotDetermined),
        Some(AccessDecision { granted: false, message: None }),
        EnumerationOutcome::Reported(vec![]),
    );
    assert_eq!(r.unwrap_err().message(), "Contacts access was not granted.");
}

#[test]
fn granted_prompt_proceeds_to_enumeration() {
    let r = fetch_outcome(
        Some(AuthorizationStatus::NotDetermined),
        Some(AccessDecision { granted: true, message: None }),
        EnumerationOutcome::Reported(vec![record("Jane", "Doe", "")]),
    );
    assert_eq!(r.unwrap(), vec!["Jane Doe"]);
}

#[test]
fn missing_decision_is_a_request_failure() {
    let r = fetch_outcome(
        Some(AuthorizationStatus::NotDetermined),
        None,
        EnumerationOutcome::Reported(vec![]),
    );
    assert_eq!(
        r.unwrap_err().message(),
        "Contacts access request returned no result."
    );
}

#[test]
fn enumeration_failure_without_native_error() {
    let r = fetch_outcome(
        Some(AuthorizationStatus::Authorized),
        None,
        EnumerationOutcome::Failed(None),
    );
    assert_eq!(r.unwrap_err().message(), "Failed to enumerate contacts.");
}

#[test]
fn enumeration_failure_uses_native_description() {
    let r = fetch_outcome(
        Some(AuthorizationStatus::Authorized),
        None,
        EnumerationOutcome::Failed(Some(NativeError {
            description: Some("Store unavailable".to_string()),
        })),
    );
    assert_eq!(r.unwrap_err().message(), "Store unavailable");
}

#[test]
fn unknown_status_code_refuses() {
    let r = fetch_outcome(None, None, EnumerationOutcome::Reported(vec![]));
    assert_eq!(
        r.unwrap_err().message(),
        "Contacts access is not authorized for this app."
    );
}
