//! Identifiers: random ones for requests, and stable ones for accounts.
use vstd::prelude::*;

verus! {

/// A digit of a hexadecimal number, in lower case.
pub open spec fn is_lower_hex(c: char) -> bool {
    '0' <= c <= '9' || 'a' <= c <= 'f'
}

/// The text of a UUID of the given version: 32 hexadecimal digits in lower case, in groups of
/// 8, 4, 4, 4 and 12 with hyphens between them.
pub open spec fn is_uuid_text(text: Seq<char>, version: char) -> bool {
    &&& text.len() == 36
    &&& forall|i: int|
        0 <= i < 36 ==> if i == 8 || i == 13 || i == 18 || i == 23 {
            #[trigger] text[i] == '-'
        } else {
            is_lower_hex(text[i])
        }
    &&& text[14] == version
}

/// The text of the UUID that `uuid::Uuid::new_v5` makes of a name in the OID namespace.
pub uninterp spec fn oid_uuid(name: Seq<u8>) -> Seq<char>;

/// `uuid::Uuid::new_v4` as it prints: a random UUID of version 4.
#[verifier::external_body]
pub(crate) fn random_uuid() -> (text: String)
    ensures
        is_uuid_text(text@, '4'),
{
    uuid::Uuid::new_v4().to_string()
}

/// `uuid::Uuid::new_v5` in the namespace `NAMESPACE_OID` as it prints: the UUID of version 5
/// that the SHA-1 hash of the name gives, the same one for the same name.
#[verifier::external_body]
pub(crate) fn name_uuid(name: &[u8]) -> (text: String)
    ensures
        text@ == oid_uuid(name@),
        is_uuid_text(text@, '5'),
{
    uuid::Uuid::new_v5(&uuid::Uuid::NAMESPACE_OID, name).to_string()
}

} // verus!
