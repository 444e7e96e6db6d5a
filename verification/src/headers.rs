//! The header collection of the `http` crate, as far as the proxy writes to
//! it. Nothing in this file is proved: each contract restates what the
//! crate's code does.

use vstd::prelude::*;

verus! {

#[verifier::external_type_specification]
#[verifier::external_body]
#[verifier::reject_recursive_types(T)]
pub struct ExHeaderMap<T>(http::HeaderMap<T>);

#[verifier::external_type_specification]
#[verifier::external_body]
pub struct ExHeaderValue(http::HeaderValue);

#[verifier::external_type_specification]
#[verifier::external_body]
pub struct ExHeaderName(http::header::HeaderName);

#[verifier::external_type_specification]
#[verifier::external_body]
pub struct ExInvalidHeaderValue(http::header::InvalidHeaderValue);

#[verifier::external_type_specification]
#[verifier::external_body]
pub struct ExInvalidHeaderName(http::header::InvalidHeaderName);

#[verifier::external_type_specification]
#[verifier::external_body]
pub struct ExMaxSizeReached(http::header::MaxSizeReached);

/// What a header collection holds: for each name, in lower case, its values
/// in the order in which they were added.
pub uninterp spec fn header_fields(headers: http::HeaderMap<http::HeaderValue>) -> Map<
    Seq<u8>,
    Seq<Seq<u8>>,
>;

/// The names that a header collection holds, each once and in lower case, in
/// the order in which the collection walks them: that in which they came in.
pub uninterp spec fn header_names(headers: http::HeaderMap<http::HeaderValue>) -> Seq<Seq<u8>>;

/// The names after one of them is set: as before where the name was there,
/// with the name at the end where it was not.
pub open spec fn names_with(names: Seq<Seq<u8>>, name: Seq<u8>) -> Seq<Seq<u8>> {
    if names.contains(name) {
        names
    } else {
        names.push(name)
    }
}

/// Whether a header collection is sure to take one more name: it holds
/// fewer than 6554. The collection refuses a name only where its table of
/// slots, at most 32768 of them, would have to grow, which it does no sooner
/// than at a fifth of that number of names.
pub open spec fn has_room(headers: http::HeaderMap<http::HeaderValue>) -> bool {
    header_names(headers).len() < 6554
}

/// The bytes of a header value.
pub uninterp spec fn header_value_bytes(value: http::HeaderValue) -> Seq<u8>;

/// The bytes of a header name, which are in lower case.
pub uninterp spec fn header_name_bytes(name: http::header::HeaderName) -> Seq<u8>;

/// A byte that a header value may hold: a tab, or anything from the space on
/// but the delete character.
pub open spec fn is_value_byte(b: u8) -> bool {
    (b >= 32 && b != 127) || b == 9
}

/// A byte of the names that the proxy writes: a lower-case letter, a digit or
/// a hyphen.
pub open spec fn is_plain_name_byte(b: u8) -> bool {
    (97 <= b <= 122) || (48 <= b <= 57) || b == 45
}

/// A non-empty name of at most 64 bytes, each of them plain.
pub open spec fn is_plain_name(name: Seq<u8>) -> bool {
    &&& 1 <= name.len() <= 64
    &&& forall|i: int| 0 <= i < name.len() ==> is_plain_name_byte(#[trigger] name[i])
}

/// `HeaderValue::from_bytes`: accepts exactly the byte strings made of value
/// bytes, and the value then holds the bytes it was given.
#[verifier::external_body]
pub(crate) fn header_value_from_bytes(bytes: &[u8]) -> (r: Result<
    http::HeaderValue,
    http::header::InvalidHeaderValue,
>)
    ensures
        r is Ok <==> (forall|i: int| 0 <= i < bytes@.len() ==> is_value_byte(#[trigger] bytes@[i])),
        r matches Ok(v) ==> header_value_bytes(v) == bytes@,
{
    http::HeaderValue::from_bytes(bytes)
}

/// `HeaderName::from_bytes`, on plain names only: such a name is accepted
/// and kept as it is, since it holds no upper-case letter to fold.
#[verifier::external_body]
pub(crate) fn header_name_from_bytes(bytes: &[u8]) -> (r: Result<
    http::header::HeaderName,
    http::header::InvalidHeaderName,
>)
    requires
        is_plain_name(bytes@),
    ensures
        r is Ok,
        r matches Ok(n) ==> header_name_bytes(n) == bytes@,
{
    http::header::HeaderName::from_bytes(bytes)
}

/// `HeaderMap::try_insert`: on success the name has the new value as its
/// only value and every other name keeps its values; a name that was there
/// keeps its place and a new one comes last. On failure, which the
/// collection reports when it cannot grow any more, nothing has changed. A
/// collection with room never fails.
#[verifier::external_body]
pub(crate) fn headers_try_insert(
    headers: &mut http::HeaderMap<http::HeaderValue>,
    name: http::header::HeaderName,
    value: http::HeaderValue,
) -> (r: Result<Option<http::HeaderValue>, http::header::MaxSizeReached>)
    ensures
        has_room(*old(headers)) ==> r is Ok,
        r is Ok ==> header_fields(*final(headers)) == header_fields(*old(headers)).insert(
            header_name_bytes(name),
            seq![header_value_bytes(value)],
        ),
        r is Ok ==> header_names(*final(headers)) == names_with(
            header_names(*old(headers)),
            header_name_bytes(name),
        ),
        r is Err ==> header_fields(*final(headers)) == header_fields(*old(headers)),
        r is Err ==> header_names(*final(headers)) == header_names(*old(headers)),
{
    headers.try_insert(name, value)
}

} // verus!
