//! Identifiers: UUIDs as 128-bit numbers.

use uuid::Uuid;
use vstd::prelude::*;

verus! {

/// A UUID, as the number that its thirty-two hexadecimal digits write.
pub type Id = u128;

/// What `Uuid::parse_str` makes of a text.
pub uninterp spec fn uuid_parse(text: Seq<char>) -> Option<u128>;

/// The small hexadecimal digit of a value below sixteen.
pub open spec fn hex_digit(d: nat) -> char {
    if d < 10 {
        (48 + d) as char
    } else {
        (87 + d) as char
    }
}

/// The last `count` hexadecimal digits of a number.
pub open spec fn hex_digits(n: nat, count: nat) -> Seq<char>
    decreases count,
{
    if count == 0 {
        Seq::empty()
    } else {
        hex_digits(n / 16, (count - 1) as nat).push(hex_digit(n % 16))
    }
}

/// The hyphenated form of a UUID: groups of eight, four, four, four and twelve small hexadecimal
/// digits.
pub open spec fn uuid_text(id: u128) -> Seq<char> {
    let h = hex_digits(id as nat, 32);
    h.subrange(0, 8) + seq!['-'] + h.subrange(8, 12) + seq!['-'] + h.subrange(12, 16) + seq!['-']
        + h.subrange(16, 20) + seq!['-'] + h.subrange(20, 32)
}

/// The version (four) and variant (binary `10`) bits of a random UUID.
pub open spec fn is_random_id(id: u128) -> bool {
    &&& (id / 0x1000_0000_0000_0000_0000u128) % 16 == 4
    &&& (id / 0x4000_0000_0000_0000u128) % 4 == 2
}

/// `Uuid::new_v4`: a random UUID. Of its bits only the version and the variant are fixed; that no
/// two calls give the same is likely, and left unsaid.
#[verifier::external_body]
pub(crate) fn random_uuid() -> (r: Id)
    ensures
        is_random_id(r),
{
    Uuid::new_v4().as_u128()
}

/// `Uuid::parse_str`, its error dropped. It is a function of the text alone.
#[verifier::external_body]
pub(crate) fn parse_uuid(text: &str) -> (r: Option<Id>)
    ensures
        r == uuid_parse(text@),
{
    Uuid::parse_str(text).ok().map(|id| id.as_u128())
}

/// `Uuid::to_string`: the hyphenated form, which `Uuid::parse_str` reads back.
#[verifier::external_body]
pub(crate) fn uuid_string(id: Id) -> (r: String)
    ensures
        r@ == uuid_text(id),
        uuid_parse(r@) == Some(id),
{
    Uuid::from_u128(id).to_string()
}

/// A fresh random identifier.
pub fn new_id() -> (r: Id)
    ensures
        is_random_id(r),
{
    random_uuid()
}

/// The identifier that a text writes, in any of the forms that UUIDs are written in.
pub fn parse_id(text: &str) -> (r: Option<Id>)
    ensures
        r == uuid_parse(text@),
{
    parse_uuid(text)
}

/// An identifier as text, and that reading the text gives the identifier back.
pub fn id_string(id: Id) -> (r: String)
    ensures
        r@ == uuid_text(id),
        uuid_parse(r@) == Some(id),
{
    uuid_string(id)
}

} // verus!
