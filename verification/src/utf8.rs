//! Reading key material, which is held as bytes, as text.

use vstd::prelude::*;
use vstd::utf8::{decode_utf8, valid_utf8};

verus! {

#[verifier::external_type_specification]
#[verifier::external_body]
pub struct ExUtf8Error(core::str::Utf8Error);

/// `core::str::from_utf8` accepts exactly the well-formed UTF-8 byte strings
/// and reads them as the characters they encode.
pub assume_specification[ core::str::from_utf8 ](v: &[u8]) -> (res: Result<&str, core::str::Utf8Error>)
    ensures
        res is Ok <==> valid_utf8(v@),
        res matches Ok(s) ==> s@ == decode_utf8(v@),
;

} // verus!
