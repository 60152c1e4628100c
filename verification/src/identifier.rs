//! Universally unique identifiers, as the user header's tag 121 carries
//! one. Reading the text of an identifier is the `uuid` crate's work.
use vstd::prelude::*;
use vstd::string::*;
use uuid::Uuid;

verus! {

/// The error with which `uuid` refuses a text.
#[verifier::external_type_specification]
#[verifier::external_body]
pub struct ExIdentifierError(uuid::Error);

/// The 128-bit value of the identifier that a text writes, or `None` where
/// `uuid` refuses the text.
pub uninterp spec fn identifier_value(text: Seq<u8>) -> Option<u128>;

/// Reads an identifier with `uuid::Uuid::parse_str` and hands out its value
/// as `Uuid::as_u128` gives it. The contract only names the result: the
/// value where the text is accepted, and the error where it is not.
#[verifier::external_body]
pub(crate) fn parse_identifier(text: &str) -> (r: Result<u128, uuid::Error>)
    ensures
        match r {
            Ok(value) => identifier_value(text.spec_bytes()) == Some(value),
            Err(_) => identifier_value(text.spec_bytes()) is None,
        },
{
    match Uuid::parse_str(text) {
        Ok(identifier) => Ok(identifier.as_u128()),
        Err(e) => Err(e),
    }
}

} // verus!
