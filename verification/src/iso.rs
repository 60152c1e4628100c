//! The ISO code lists that the decoders consult: currencies (ISO 4217) and
//! countries (ISO 3166-1 alpha-2). The lists themselves belong to the crates
//! `iso_currency` and `iso3166_1`; here they are only named.
use vstd::prelude::*;
use vstd::string::*;
use iso_currency::Currency;
use crate::error::optional_bytes;

verus! {

/// What `iso_currency::Currency::from_code` finds for a code: the code of
/// the currency found, or `None` where the list has no such currency.
pub uninterp spec fn listed_currency(code: Seq<u8>) -> Option<Seq<u8>>;

/// What `iso3166_1::alpha2` finds for a code: the alpha-2 code of the
/// country found, or `None` where the list has no such country.
pub uninterp spec fn listed_country(code: Seq<u8>) -> Option<Seq<u8>>;

/// Looks a currency up with `iso_currency::Currency::from_code` and hands
/// out the code of what was found, as `Currency::code` gives it. The
/// contract names the result and claims one thing of it that the source
/// shows: the lookup matches the code letter for letter, so the code of the
/// currency found is the code that was asked for.
#[verifier::external_body]
pub(crate) fn currency_code(code: &str) -> (r: Option<&'static str>)
    ensures
        optional_bytes(r) == listed_currency(code.spec_bytes()),
        r matches Some(c) ==> c.spec_bytes() == code.spec_bytes(),
{
    match Currency::from_code(code) {
        Some(currency) => Some(currency.code()),
        None => None,
    }
}

/// Looks a country up with `iso3166_1::alpha2` and hands out the `alpha2`
/// field of what was found. The contract names the result and claims one
/// thing of it that the source shows: the lookup compares the field with
/// the code for equality, so the field of the country found is the code that
/// was asked for.
#[verifier::external_body]
pub(crate) fn country_code(code: &str) -> (r: Option<&'static str>)
    ensures
        optional_bytes(r) == listed_country(code.spec_bytes()),
        r matches Some(c) ==> c.spec_bytes() == code.spec_bytes(),
{
    match iso3166_1::alpha2(code) {
        Some(country) => Some(country.alpha2),
        None => None,
    }
}

} // verus!
