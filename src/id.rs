use vstd::prelude::*;

verus! {

/// Bits that carry a UUID's version (high nibble of the seventh byte) and
/// its variant (top two bits of the ninth byte), in the big-endian `u128`
/// reading of the sixteen bytes.
pub const VERSION_VARIANT_MASK: u128 = 0x0000_0000_0000_F000_C000_0000_0000_0000;

/// What those bits read in a version-4, RFC 4122 variant UUID.
pub const VERSION_VARIANT_V4: u128 = 0x0000_0000_0000_4000_8000_0000_0000_0000;

/// The identifier is a random (version 4) UUID.
pub open spec fn is_v4(id: u128) -> bool {
    id & VERSION_VARIANT_MASK == VERSION_VARIANT_V4
}

/// The identifier that `uuid::Uuid::parse_str` reads from `text`, as a
/// big-endian `u128`, or `None` where it rejects the text.
pub uninterp spec fn parsed_uuid(text: Seq<char>) -> Option<u128>;

/// Relies on `uuid::Uuid::parse_str` and `Uuid::as_u128`: the outcome
/// depends on the text alone, and empty text is rejected (no accepted
/// form is empty).
#[verifier::external_body]
pub(crate) fn parse_id(text: &str) -> (r: Option<u128>)
    ensures
        r == parsed_uuid(text@),
        text@.len() == 0 ==> r is None,
{
    match uuid::Uuid::parse_str(text) {
        Ok(u) => Some(u.as_u128()),
        Err(_) => None,
    }
}

/// Relies on `uuid::Uuid::new_v4` and `Uuid::as_u128`: a random identifier
/// whose version bits read 4 and whose variant bits read `10`; nothing else
/// is known of it.
#[verifier::external_body]
pub(crate) fn new_id() -> (r: u128)
    ensures
        is_v4(r),
{
    uuid::Uuid::new_v4().as_u128()
}

} // verus!
