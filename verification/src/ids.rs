//! Identifiers: 128-bit ids drawn at random, and their canonical text form.
//! Both go through the uuid crate; the rest of the library treats an id as a
//! plain number.

use vstd::prelude::*;

verus! {

/// The hyphenated text form of a 128-bit id. Its exact spelling is the uuid
/// crate's business; the library relies only on it being a function of the
/// id, 36 characters long, and parseable back to the same id.
pub uninterp spec fn uuid_text_of(id: u128) -> Seq<char>;

/// Relies on `uuid::Uuid::new_v4` (read back through `as_u128`): a freshly
/// drawn random id. Nothing is promised of the value; every caller treats it
/// as arbitrary, and uniqueness is enforced by the store's row constraints,
/// never assumed.
#[verifier::external_body]
pub(crate) fn fresh_id() -> u128 {
    uuid::Uuid::new_v4().as_u128()
}

/// Relies on `uuid::Uuid::from_u128` and the hyphenated `Display` form that
/// `to_string` renders: 36 characters, determined by the id alone.
#[verifier::external_body]
pub(crate) fn uuid_text(id: u128) -> (s: String)
    ensures
        s@ == uuid_text_of(id),
        s@.len() == 36,
{
    uuid::Uuid::from_u128(id).hyphenated().to_string()
}

/// Relies on `uuid::Uuid::try_parse` (read back through `as_u128`): parsing
/// the text form of an id yields that id again.
#[verifier::external_body]
pub(crate) fn uuid_parse(s: &str) -> (r: Option<u128>)
    ensures
        forall|id: u128| s@ == uuid_text_of(id) ==> r == Some(id),
{
    match uuid::Uuid::try_parse(s) {
        Ok(u) => Some(u.as_u128()),
        Err(_) => None,
    }
}

} // verus!
