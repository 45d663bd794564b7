use contacts_bridge::names::ContactRecord;
use contacts_bridge::names::derive_display_name;
use contacts_bridge::text::trim;

fn record(given: &str, family: &str, organization: &str) -> ContactRecord {
    ContactRecord {
        given_name: given.to_string(),
        family_name: family.to_string(),
        organization_name: organization.to_string(),
    }
}

#[test]
fn trim_removes_whitespace_both_ends() {
    assert_eq!(trim("  Jane \t\n"), "Jane");
    assert_eq!(trim("Jane"), "Jane");
    assert_eq!(trim("   "), "");
    assert_eq!(trim(""), "");
    assert_eq!(trim(" a b "), "a b");
}

#[test]
fn both_names_join_with_single_space() {
    let r = derive_display_name(&record("  Jane ", " Doe  ", ""));
    assert_eq!(r, Some("Jane Doe".to_string()));
}

#[test]
fn given_only_reduces_to_given() {
    let r = derive_display_name(&record(" Jane ", "   ", "Acme Corp"));
    assert_eq!(r, Some("Jane".to_string()));
}

#[test]
fn family_only_reduces_to_family() {
    let r = derive_display_name(&record("", " Doe ", "Acme Corp"));
    assert_eq!(r, Some("Doe".to_string()));
}

#[test]
fn organization_used_when_both_names_empty() {
    let r = derive_display_name(&record("", "  ", "  Acme Corp "));
    assert_eq!(r, Some("Acme Corp".to_string()));
}

#[test]
fn all_empty_contributes_nothing() {
    assert_eq!(derive_display_name(&record("", "", "")), None);
}

#[test]
fn whitespace_only_fields_contribute_nothing() {
    assert_eq!(derive_display_name(&record("  ", "\t", "   ")), None);
}
