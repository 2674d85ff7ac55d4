use vstd::prelude::*;

verus! {

/// The 128-bit value, if any, that the uuid crate's parser reads from a
/// string. Which strings parse, and to what value, depends on the string
/// alone.
pub uninterp spec fn uuid_of_str(s: Seq<char>) -> Option<u128>;

/// The hyphenated string the uuid crate prints for a 128-bit value; a
/// function of the value alone.
pub uninterp spec fn uuid_str_of(u: u128) -> Seq<char>;

/// Relies on uuid::Uuid::parse_str (with Uuid::as_u128 packing the bytes):
/// it accepts exactly the uuid crate's textual formats, deterministically.
#[verifier::external_body]
pub(crate) fn parse_uuid(s: &str) -> (r: Option<u128>)
    ensures
        r == uuid_of_str(s@),
{
    match uuid::Uuid::parse_str(s) {
        Ok(u) => Some(u.as_u128()),
        Err(_) => None,
    }
}

/// Relies on uuid::Uuid::from_u128 and the uuid crate's Display: the value's
/// bytes print as the hyphenated lowercase form, and uuid::Uuid::parse_str
/// reads that form back to the same value.
#[verifier::external_body]
pub(crate) fn uuid_to_string(u: u128) -> (r: String)
    ensures
        r@ == uuid_str_of(u),
        uuid_of_str(r@) == Some(u),
{
    uuid::Uuid::from_u128(u).to_string()
}

/// Relies on uuid::Uuid::new_v4 for a freshly drawn random identifier;
/// nothing is promised of the value.
#[verifier::external_body]
pub(crate) fn new_id() -> u128 {
    uuid::Uuid::new_v4().as_u128()
}

} // verus!
