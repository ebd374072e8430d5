//! Task and configuration identifiers: UUIDs as 128-bit numbers, with their textual form.

use vstd::prelude::*;

verus! {

/// The identifier that `uuid::Uuid::parse_str` reads off a text, or `None` where it reads none.
pub uninterp spec fn uuid_of_text(s: Seq<char>) -> Option<u128>;

/// The text that `uuid::Uuid` displays for an identifier.
pub uninterp spec fn text_of_uuid(id: u128) -> Seq<char>;

/// `uuid::Uuid::parse_str`: the identifier a text writes, as a number. Which texts it reads (plain,
/// hyphenated, braced and URN forms) is left to the named result.
#[verifier::external_body]
pub(crate) fn parse_uuid(s: &str) -> (r: Option<u128>)
    ensures
        r == uuid_of_text(s@),
{
    match uuid::Uuid::parse_str(s) {
        Ok(id) => Some(id.as_u128()),
        Err(_) => None,
    }
}

/// `uuid::Uuid`'s `Display`: the lower-case hyphenated form, thirty-six ASCII characters that
/// `Uuid::parse_str` reads back as the same identifier.
#[verifier::external_body]
pub(crate) fn uuid_text(id: u128) -> (r: String)
    ensures
        r@ == text_of_uuid(id),
        r@.len() == 36,
        vstd::utf8::is_ascii_chars(r@),
        uuid_of_text(r@) == Some(id),
{
    uuid::Uuid::from_u128(id).to_string()
}

/// The identifier a caller wrote, or `None` where the text is no UUID.
pub fn read_id(text: &str) -> (r: Option<u128>)
    ensures
        r == uuid_of_text(text@),
{
    parse_uuid(text)
}

/// The canonical text of an identifier; reading it gives the identifier back.
pub fn id_text(id: u128) -> (r: String)
    ensures
        r@ == text_of_uuid(id),
        uuid_of_text(r@) == Some(id),
        r@.len() == 36,
        vstd::utf8::is_ascii_chars(r@),
{
    uuid_text(id)
}

} // verus!
