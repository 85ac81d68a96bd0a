//! 128-bit identifiers in their text forms, by the `uuid` crate.
use vstd::prelude::*;
use crate::numeric::digit_char;
use uuid::Uuid;

verus! {

/// The value that `uuid::Uuid::parse_str` reads from a text, if it accepts it
/// (simple, hyphenated, braced and URN forms), as a big-endian integer.
pub uninterp spec fn uuid_parse(text: Seq<char>) -> Option<u128>;

/// `width` lowercase hexadecimal digits of `n`, most significant first.
pub open spec fn hex_fixed(n: nat, width: nat) -> Seq<char>
    decreases width,
{
    if width == 0 {
        Seq::empty()
    } else {
        hex_fixed(n / 16, (width - 1) as nat).push(digit_char(n % 16))
    }
}

/// A fixed-width hexadecimal rendering has exactly the requested width.
pub proof fn lemma_hex_fixed_len(n: nat, width: nat)
    ensures
        hex_fixed(n, width).len() == width,
    decreases width,
{
    if width > 0 {
        lemma_hex_fixed_len(n / 16, (width - 1) as nat);
    }
}

/// The hyphenated lowercase form `xxxxxxxx-xxxx-xxxx-xxxx-xxxxxxxxxxxx`.
pub open spec fn uuid_hyphenated(id: u128) -> Seq<char> {
    let h = hex_fixed(id as nat, 32);
    h.subrange(0, 8) + seq!['-'] + h.subrange(8, 12) + seq!['-'] + h.subrange(12, 16) + seq!['-']
        + h.subrange(16, 20) + seq!['-'] + h.subrange(20, 32)
}

/// `uuid::Uuid::parse_str`, read back as its 128-bit value.
///
/// Trusted: the result is the crate's parse of exactly this text; which texts
/// it accepts is not restated here.
#[verifier::external_body]
pub fn parse_uuid(text: &str) -> (r: Option<u128>)
    ensures
        r == uuid_parse(text@),
{
    Uuid::parse_str(text).ok().map(|id| id.as_u128())
}

/// `Display` of `uuid::Uuid::from_u128`: the hyphenated lowercase form.
///
/// Trusted: the crate's documented hyphenated format, stated in `uuid_hyphenated`.
#[verifier::external_body]
pub fn uuid_text(id: u128) -> (s: String)
    ensures
        s@ == uuid_hyphenated(id),
{
    Uuid::from_u128(id).to_string()
}

/// `uuid::Uuid::now_v7`: a fresh time-ordered identifier.
///
/// Trusted: nothing is stated of the value, which depends on the clock and on
/// a random source.
#[verifier::external_body]
pub fn new_v7() -> (id: u128) {
    Uuid::now_v7().as_u128()
}

} // verus!
