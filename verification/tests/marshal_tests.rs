use contacts_bridge::errors::BridgeError;
use contacts_bridge::errors::FailedObject;
use contacts_bridge::errors::RequestFault;
use contacts_bridge::errors::ValidationFault;
use contacts_bridge::errors::NativeError;
use contacts_bridge::errors::native_error_message;
use contacts_bridge::handle::BridgeObject;
use contacts_bridge::marshal::decode_native_string;
use contacts_bridge::marshal::encode_c_string;
use contacts_bridge::marshal::fetch_request_keys;
use contacts_bridge::sidecar::SidecarLayout;
use contacts_bridge::sidecar::select_sidecar;
use contacts_bridge::sidecar::sidecar_candidate_paths;

#[test]
fn null_native_string_decodes_to_empty() {
    assert_eq!(decode_native_string(None), "");
}

#[test]
fn valid_utf8_decodes_losslessly() {
    let bytes = "Jane Doe".as_bytes().to_vec();
    assert_eq!(decode_native_string(Some(bytes)), "Jane Doe");
}

#[test]
fn invalid_utf8_decodes_with_replacement_character() {
    let bytes = vec![0x4a, 0xff, 0x61];
    assert_eq!(decode_native_string(Some(bytes)), "J\u{fffd}a");
}

#[test]
fn encoding_appends_one_null_terminator() {
    let bytes = encode_c_string("givenName", "givenName").unwrap();
    assert_eq!(bytes, b"givenName\0".to_vec());
}

#[test]
fn embedded_null_byte_names_the_field() {
    let e = encode_c_string("familyName", "bad\0key").unwrap_err();
    assert_eq!(e.message(), "Invalid key: familyName");
}

#[test]
fn fetch_request_asks_for_exactly_three_keys() {
    let keys = fetch_request_keys();
    assert_eq!(keys, vec!["givenName", "familyName", "organizationName"]);
}

#[test]
fn native_error_surface_falls_back_when_blank() {
    assert_eq!(
        native_error_message(&NativeError { description: None }),
        "Unknown contacts error."
    );
    assert_eq!(
        native_error_message(&NativeError { description: Some("   ".to_string()) }),
        "Unknown contacts error."
    );
    assert_eq!(
        native_error_message(&NativeError { description: Some("boom".to_string()) }),
        "boom"
    );
}

#[test]
fn null_handles_report_the_failed_object() {
    let e = BridgeObject::wrap_created(0, FailedObject::Store).unwrap_err();
    assert_eq!(e.message(), "Failed to create CNContactStore.");
    let e = BridgeObject::wrap_created(0, FailedObject::RequestAllocation).unwrap_err();
    assert_eq!(e.message(), "Failed to allocate CNContactFetchRequest.");
    let e =
        BridgeObject::wrap_created(0, FailedObject::KeyString("givenName".to_string())).unwrap_err();
    assert_eq!(e.message(), "Failed to create NSString for givenName.");
}

#[test]
fn wrapped_handles_release_exactly_once() {
    let mut o = BridgeObject::wrap_created(42, FailedObject::Store).unwrap();
    assert_eq!(o.as_handle(), 42);
    let released = o.release();
    assert_eq!(released, 42);
}

#[test]
fn synchronization_failures_have_their_own_messages() {
    assert_eq!(
        BridgeError::AuthorizationRequest(RequestFault::LockFailed).message(),
        "Failed to request contacts access."
    );
    assert_eq!(
        BridgeError::AuthorizationRequest(RequestFault::WaitFailed).message(),
        "Failed while waiting for contacts access."
    );
    assert_eq!(
        BridgeError::AccumulatorRead.message(),
        "Failed to read contacts list."
    );
}

#[test]
fn home_directory_failure_has_its_own_message() {
    assert_eq!(
        BridgeError::Validation(ValidationFault::HomeDirectory).message(),
        "Could not resolve HOME directory."
    );
}

#[test]
fn blank_native_description_falls_back_in_enumeration_errors() {
    let e = BridgeError::Enumeration(Some(NativeError {
        description: Some("  \t ".to_string()),
    }));
    assert_eq!(e.message(), "Unknown contacts error.");
}

#[test]
fn remaining_object_creation_messages_are_exact() {
    let e = BridgeError::ObjectCreation(FailedObject::KeysArray);
    assert_eq!(e.message(), "Failed to create fetch request keys.");
    let e = BridgeError::ObjectCreation(FailedObject::RequestInitialization);
    assert_eq!(e.message(), "Failed to initialize CNContactFetchRequest.");
}

#[test]
fn unsupported_platform_message_is_fixed() {
    assert_eq!(
        BridgeError::UnsupportedPlatform.message(),
        "Contacts are only available on macOS."
    );
}

#[test]
fn sidecar_prefers_the_packaged_layout() {
    assert_eq!(select_sidecar(true, true), Some(SidecarLayout::Packaged));
    assert_eq!(select_sidecar(true, false), Some(SidecarLayout::Packaged));
    assert_eq!(select_sidecar(false, true), Some(SidecarLayout::Development));
    assert_eq!(select_sidecar(false, false), None);
}

#[test]
fn sidecar_paths_are_fixed() {
    let (packaged, development) = sidecar_candidate_paths();
    assert_eq!(packaged, "../Resources/_internal/ica-sidecar/ica-sidecar");
    assert_eq!(development, "../../_internal/ica-sidecar/ica-sidecar");
}
