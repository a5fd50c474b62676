//! Outside types that the library carries without looking inside, and the one std
//! function whose behaviour the reader relies on.
use vstd::prelude::*;
use vstd::utf8::*;

verus! {

/// A capability to send to a node (strong-ipc); carried opaquely.
#[verifier::external_type_specification]
#[verifier::external_body]
pub struct ExRef(strong_ipc::Ref);

/// Why a byte buffer was not UTF-8 (std); carried opaquely inside `ReadError`.
#[verifier::external_type_specification]
#[verifier::external_body]
pub struct ExFromUtf8Error(std::string::FromUtf8Error);

/// An operating-system error (std); carried opaquely inside `WriteError`.
#[verifier::external_type_specification]
#[verifier::external_body]
pub struct ExIoError(std::io::Error);

/// Why a node could not be stood up (strong-ipc); carried opaquely inside `SendError`.
#[verifier::external_type_specification]
#[verifier::external_body]
pub struct ExNodeError(strong_ipc::NodeError);

/// `String::from_utf8` (std): succeeds exactly when the bytes are valid UTF-8, and then
/// the string holds the characters they encode. Nothing is claimed of the error value.
pub assume_specification[ String::from_utf8 ](vec: Vec<u8>) -> (r: Result<
    String,
    std::string::FromUtf8Error,
>)
    ensures
        r is Ok <==> valid_utf8(vec@),
        r matches Ok(s) ==> s@ == decode_utf8(vec@),
;

} // verus!
