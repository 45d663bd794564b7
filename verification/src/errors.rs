//! The bridge's error taxonomy and its mapping to the user-visible messages.

use vstd::prelude::*;
use vstd::string::*;

use crate::text::trim;
use crate::text::trim_spec;

verus! {

/// Which required foreign object could not be constructed.
#[derive(Debug, PartialEq, Eq, Clone)]
pub enum FailedObject {
    Store,
    /// A native string for the named fetch key.
    KeyString(String),
    KeysArray,
    RequestAllocation,
    RequestInitialization,
}

/// A native error object, reduced to the plain data the bridge reads from it:
/// its localized description, when the object carried one.
#[derive(Debug, PartialEq, Eq, Clone)]
pub struct NativeError {
    pub description: Option<String>,
}

/// Which step of the permission request/wait protocol broke before a
/// decision arrived.
#[derive(Debug, PartialEq, Eq, Clone)]
pub enum RequestFault {
    /// The waiter was woken but the one-shot cell held no decision.
    NoDecision,
    /// The result cell's lock could not be taken before waiting.
    LockFailed,
    /// The wait on the decision signal failed.
    WaitFailed,
}

/// Why a download filename was rejected before touching the filesystem.
#[derive(Debug, PartialEq, Eq, Clone)]
pub enum ValidationFault {
    EmptyName,
    DirectorySegments,
    InvalidStem,
    HomeDirectory,
}

/// Every failure the bridge can report; each converts to a descriptive
/// string at the command boundary.
#[derive(Debug, PartialEq, Eq, Clone)]
pub enum BridgeError {
    /// The platform lacks the native contacts framework.
    UnsupportedPlatform,
    /// A required foreign object could not be constructed.
    ObjectCreation(FailedObject),
    /// Access was declined, restricted, or otherwise not authorized.
    /// `prompted` tells whether a permission prompt was issued first;
    /// `message` is the underlying decision message, when one was carried.
    AuthorizationDenied { prompted: bool, message: Option<String> },
    /// The request/wait protocol broke before a decision arrived.
    AuthorizationRequest(RequestFault),
    /// The enumerate call reported failure, with the native error when the
    /// framework supplied one.
    Enumeration(Option<NativeError>),
    /// The name accumulator could not be read back after enumeration.
    AccumulatorRead,
    /// A host string (the named fetch key) could not be encoded natively.
    Encoding(String),
    /// A malformed download filename.
    Validation(ValidationFault),
}

/// The message a native error object surfaces: its description, or the
/// generic message when there is none or it is only whitespace.
pub open spec fn native_error_message_spec(e: NativeError) -> Seq<char> {
    match e.description {
        Option::None => "Unknown contacts error."@,
        Option::Some(d) => if trim_spec(d@).len() == 0 {
            "Unknown contacts error."@
        } else {
            d@
        },
    }
}

/// Converts a native error object (already reduced to its description) into
/// a human-readable message; absence and whitespace-only descriptions fall
/// back to the generic message.
pub fn native_error_message(e: &NativeError) -> (r: String)
    ensures
        r@ == native_error_message_spec(*e),
{
    match &e.description {
        Option::None => String::from_str("Unknown contacts error."),
        Option::Some(d) => {
            let t = trim(d.as_str());
            if t.as_str().unicode_len() == 0 {
                String::from_str("Unknown contacts error.")
            } else {
                d.clone()
            }
        },
    }
}

impl FailedObject {
    /// The message reported when this object could not be constructed.
    pub open spec fn message_spec(&self) -> Seq<char> {
        match self {
            FailedObject::Store => "Failed to create CNContactStore."@,
            FailedObject::KeyString(key) => "Failed to create NSString for "@ + key@ + "."@,
            FailedObject::KeysArray => "Failed to create fetch request keys."@,
            FailedObject::RequestAllocation => "Failed to allocate CNContactFetchRequest."@,
            FailedObject::RequestInitialization => "Failed to initialize CNContactFetchRequest."@,
        }
    }
}

impl BridgeError {
    /// The user-visible message of this error.
    pub open spec fn message_spec(&self) -> Seq<char> {
        match self {
            BridgeError::UnsupportedPlatform => "Contacts are only available on macOS."@,
            BridgeError::ObjectCreation(o) => o.message_spec(),
            BridgeError::AuthorizationDenied { prompted, message } => if *prompted {
                match message {
                    Option::Some(m) => m@,
                    Option::None => "Contacts access was not granted."@,
                }
            } else {
                "Contacts access is not authorized for this app."@
            },
            BridgeError::AuthorizationRequest(RequestFault::NoDecision) =>
                "Contacts access request returned no result."@,
            BridgeError::AuthorizationRequest(RequestFault::LockFailed) =>
                "Failed to request contacts access."@,
            BridgeError::AuthorizationRequest(RequestFault::WaitFailed) =>
                "Failed while waiting for contacts access."@,
            BridgeError::Enumeration(Option::None) => "Failed to enumerate contacts."@,
            BridgeError::Enumeration(Option::Some(e)) => native_error_message_spec(*e),
            BridgeError::AccumulatorRead => "Failed to read contacts list."@,
            BridgeError::Encoding(key) => "Invalid key: "@ + key@,
            BridgeError::Validation(ValidationFault::EmptyName) =>
                "Output filename cannot be empty."@,
            BridgeError::Validation(ValidationFault::DirectorySegments) =>
                "Output filename must not include directory segments."@,
            BridgeError::Validation(ValidationFault::InvalidStem) =>
                "Output filename is invalid."@,
            BridgeError::Validation(ValidationFault::HomeDirectory) =>
                "Could not resolve HOME directory."@,
        }
    }

    /// Converts this error into its descriptive string.
    pub fn message(&self) -> (r: String)
        ensures
            r@ == self.message_spec(),
    {
        match self {
            BridgeError::UnsupportedPlatform => String::from_str(
                "Contacts are only available on macOS.",
            ),
            BridgeError::ObjectCreation(FailedObject::Store) => String::from_str(
                "Failed to create CNContactStore.",
            ),
            BridgeError::ObjectCreation(FailedObject::KeyString(key)) => String::from_str(
                "Failed to create NSString for ",
            ).concat(key.as_str()).concat("."),
            BridgeError::ObjectCreation(FailedObject::KeysArray) => String::from_str(
                "Failed to create fetch request keys.",
            ),
            BridgeError::ObjectCreation(FailedObject::RequestAllocation) => String::from_str(
                "Failed to allocate CNContactFetchRequest.",
            ),
            BridgeError::ObjectCreation(FailedObject::RequestInitialization) => String::from_str(
                "Failed to initialize CNContactFetchRequest.",
            ),
            BridgeError::AuthorizationDenied { prompted, message } => if *prompted {
                match message {
                    Option::Some(m) => m.clone(),
                    Option::None => String::from_str("Contacts access was not granted."),
                }
            } else {
                String::from_str("Contacts access is not authorized for this app.")
            },
            BridgeError::AuthorizationRequest(RequestFault::NoDecision) => String::from_str(
                "Contacts access request returned no result.",
            ),
            BridgeError::AuthorizationRequest(RequestFault::LockFailed) => String::from_str(
                "Failed to request contacts access.",
            ),
            BridgeError::AuthorizationRequest(RequestFault::WaitFailed) => String::from_str(
                "Failed while waiting for contacts access.",
            ),
            BridgeError::Enumeration(Option::None) => String::from_str(
                "Failed to enumerate contacts.",
            ),
            BridgeError::Enumeration(Option::Some(e)) => native_error_message(e),
            BridgeError::AccumulatorRead => String::from_str("Failed to read contacts list."),
            BridgeError::Encoding(key) => String::from_str("Invalid key: ").concat(key.as_str()),
            BridgeError::Validation(ValidationFault::EmptyName) => String::from_str(
                "Output filename cannot be empty.",
            ),
            BridgeError::Validation(ValidationFault::DirectorySegments) => String::from_str(
                "Output filename must not include directory segments.",
            ),
            BridgeError::Validation(ValidationFault::InvalidStem) => String::from_str(
                "Output filename is invalid.",
            ),
            BridgeError::Validation(ValidationFault::HomeDirectory) => String::from_str(
                "Could not resolve HOME directory.",
            ),
        }
    }
}

} // verus!
