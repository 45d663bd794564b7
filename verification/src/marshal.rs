//! String marshaling across the foreign-function boundary: native bytes to
//! host strings, host strings to null-terminated native bytes, and the exact
//! keys of the fields the fetch request asks for.

use vstd::prelude::*;
use vstd::string::*;

use crate::errors::BridgeError;

verus! {

/// The characters that `String::from_utf8_lossy` decodes from the given
/// bytes: UTF-8, with each invalid sequence replaced by U+FFFD.
pub uninterp spec fn utf8_lossy_of(bytes: Seq<u8>) -> Seq<char>;

/// Relies on `String::from_utf8_lossy`: the decoding never fails, depends on
/// the bytes alone, and decodes no bytes to no characters.
#[verifier::external_body]
fn utf8_lossy(bytes: &Vec<u8>) -> (r: String)
    ensures
        r@ == utf8_lossy_of(bytes@),
        bytes@.len() == 0 ==> r@.len() == 0,
{
    String::from_utf8_lossy(bytes).into_owned()
}

/// Decodes a native string already read out as raw bytes. A null native
/// pointer hands over no bytes at all and decodes to the empty string; bytes
/// decode losslessly, with the replacement character standing in for every
/// invalid sequence, so decoding never fails.
pub fn decode_native_string(data: Option<Vec<u8>>) -> (r: String)
    ensures
        match data {
            Option::None => r@.len() == 0,
            Option::Some(bytes) => r@ == utf8_lossy_of(bytes@),
        },
{
    match data {
        Option::None => String::new(),
        Option::Some(bytes) => utf8_lossy(&bytes),
    }
}

/// Encodes a host string for the native boundary: its UTF-8 bytes followed
/// by one terminating null byte. A string with an embedded null byte cannot
/// cross; the error names the offending field.
pub fn encode_c_string(field: &str, value: &str) -> (r: Result<Vec<u8>, BridgeError>)
    ensures
        !value.spec_bytes().contains(0u8) ==> (r matches Result::Ok(bytes) && bytes@
            == value.spec_bytes().push(0u8)),
        value.spec_bytes().contains(0u8) ==> (r matches Result::Err(e) && e matches
            BridgeError::Encoding(key) && key@ == field@),
{
    let mut bytes = value.as_bytes_vec();
    let n = bytes.len();
    let mut j: usize = 0;
    while j < n
        invariant
            n == bytes@.len(),
            j <= n,
            bytes@ == value.spec_bytes(),
            forall|k: int| 0 <= k < j ==> bytes@[k] != 0u8,
        decreases n - j,
    {
        if bytes[j] == 0u8 {
            return Result::Err(BridgeError::Encoding(String::from_str(field)));
        }
        j = j + 1;
    }
    proof {
        if value.spec_bytes().contains(0u8) {
            let w = choose|w: int|
                0 <= w < value.spec_bytes().len() && value.spec_bytes()[w] == 0u8;
            assert(false);
        }
    }
    bytes.push(0u8);
    Result::Ok(bytes)
}

/// The three optional fields the fetch request asks for, via their exact
/// string keys, in the order they are requested.
pub fn fetch_request_keys() -> (r: Vec<String>)
    ensures
        r@.len() == 3,
        r@[0]@ == "givenName"@,
        r@[1]@ == "familyName"@,
        r@[2]@ == "organizationName"@,
{
    let mut keys: Vec<String> = Vec::new();
    keys.push(String::from_str("givenName"));
    keys.push(String::from_str("familyName"));
    keys.push(String::from_str("organizationName"));
    keys
}

} // verus!
