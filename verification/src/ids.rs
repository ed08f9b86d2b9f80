//! Identifiers of calls and clients: UUIDs held as 128-bit numbers.
use crate::bytes::{be_bytes, be_value};
use crate::text::lower_hex_digit;
use vstd::prelude::*;

verus! {

/// The UUID of a call or a message transaction, as the number that its
/// sixteen bytes spell with the most significant byte first.
pub type CallId = u128;

/// The UUID of a connected base station, in the same form.
pub type ClientId = u128;

/// `uuid::Uuid::from_bytes`, read out with `Uuid::as_u128`: the UUID with
/// these sixteen bytes, as the number that they spell most significant first.
#[verifier::external_body]
pub(crate) fn uuid_from_bytes(bytes: &[u8]) -> (id: u128)
    requires
        bytes@.len() == 16,
    ensures
        id == be_value(bytes@),
{
    uuid::Uuid::from_bytes(bytes.try_into().unwrap()).as_u128()
}

/// `uuid::Uuid::as_bytes` of the UUID that `Uuid::from_u128` makes: its
/// sixteen bytes, most significant first.
#[verifier::external_body]
pub(crate) fn uuid_to_bytes(id: u128) -> (bytes: Vec<u8>)
    ensures
        bytes@ == be_bytes(id as nat, 16),
{
    uuid::Uuid::from_u128(id).as_bytes().to_vec()
}

/// The version and variant bits of `id` are those of a random UUID.
pub open spec fn version_four(id: u128) -> bool {
    &&& (id / 0x1000_0000_0000_0000_0000) % 16 == 4
    &&& (id / 0x4000_0000_0000_0000) % 4 == 2
}

/// `uuid::Uuid::new_v4`, read out with `Uuid::as_u128`: some random UUID. It
/// is a version 4 UUID of the RFC 4122 variant; nothing else is known of it.
#[verifier::external_body]
pub(crate) fn random_uuid() -> (id: u128)
    ensures
        version_four(id),
{
    uuid::Uuid::new_v4().as_u128()
}

/// The sixteen bytes of a UUID in hexadecimal, without hyphens.
pub open spec fn simple_digits(id: u128) -> Seq<char> {
    Seq::new(
        32,
        |i: int|
            {
                let byte = be_bytes(id as nat, 16)[i / 2];
                lower_hex_digit(
                    if i % 2 == 0 {
                        byte as nat / 16
                    } else {
                        byte as nat % 16
                    },
                )
            },
    )
}

/// `uuid::Uuid::simple`, as text: the thirty-two small hexadecimal digits of
/// the UUID.
#[verifier::external_body]
pub(crate) fn uuid_simple(id: u128) -> (text: String)
    ensures
        text@ == simple_digits(id),
{
    uuid::Uuid::from_u128(id).simple().to_string()
}

} // verus!
