//! Random bearer secrets: 256 bits from the operating system, hex-encoded.
use vstd::prelude::*;
use crate::numeric::digit_char;
use crate::text::{push_char, push_text, owned, is_ascii_lower, is_ascii_digit};
use crate::auth::{hash_token, token_digest};

verus! {

/// The two lowercase hexadecimal digits of a byte, as `{:02x}` writes them.
pub open spec fn hex_byte(b: u8) -> Seq<char> {
    seq![digit_char((b / 16) as nat), digit_char((b % 16) as nat)]
}

/// The bytes as lowercase hexadecimal, two digits each.
pub open spec fn hex_bytes(bytes: Seq<u8>) -> Seq<char>
    decreases bytes.len(),
{
    if bytes.len() == 0 {
        Seq::empty()
    } else {
        hex_bytes(bytes.drop_last()) + hex_byte(bytes.last())
    }
}

/// Every byte becomes two hexadecimal digits.
pub proof fn lemma_hex_bytes_len(bytes: Seq<u8>)
    ensures
        hex_bytes(bytes).len() == 2 * bytes.len(),
    decreases bytes.len(),
{
    if bytes.len() > 0 {
        lemma_hex_bytes_len(bytes.drop_last());
    }
}

/// `getrandom::fill` on an array of `N` bytes.
///
/// Trusted: nothing is stated of the bytes, which come from the operating
/// system's random source; `None` where that source failed.
#[verifier::external_body]
pub(crate) fn random_bytes<const N: usize>() -> (r: Option<[u8; N]>) {
    let mut bytes = [0u8; N];
    match getrandom::fill(&mut bytes) {
        Ok(()) => Some(bytes),
        Err(_) => None,
    }
}

/// Appends the two hexadecimal digits of a byte.
pub fn push_hex_byte(out: &mut String, b: u8)
    ensures
        final(out)@ == old(out)@ + hex_byte(b),
{
    let hi = b / 16;
    let lo = b % 16;
    let c_hi = if hi < 10 {
        ((48u8 + hi) as char)
    } else {
        ((97u8 + hi - 10) as char)
    };
    let c_lo = if lo < 10 {
        ((48u8 + lo) as char)
    } else {
        ((97u8 + lo - 10) as char)
    };
    push_char(out, c_hi);
    push_char(out, c_lo);
}

/// A secret made of `prefix` and 64 lowercase hexadecimal digits of 32 bytes.
pub open spec fn is_secret_with_prefix(secret: Seq<char>, prefix: Seq<char>) -> bool {
    exists|bytes: Seq<u8>| bytes.len() == 32 && secret == prefix + #[trigger] hex_bytes(bytes)
}

/// The secret made of `prefix` and the 32 given bytes in lowercase
/// hexadecimal, together with the SHA-256 digest under which it is stored.
pub fn secret_from_bytes(prefix: &str, bytes: &[u8; 32]) -> (r: (String, Vec<u8>))
    ensures
        r.0@ == prefix@ + hex_bytes(bytes@),
        r.1@ == token_digest(r.0@),
{
    let mut secret = owned(prefix);
    let mut i: usize = 0;
    while i < 32
        invariant
            i <= 32,
            bytes@.len() == 32,
            secret@ == prefix@ + hex_bytes(bytes@.subrange(0, i as int)),
        decreases 32 - i,
    {
        push_hex_byte(&mut secret, bytes[i]);
        proof {
            let next = bytes@.subrange(0, i + 1);
            assert(next.drop_last() == bytes@.subrange(0, i as int));
            assert(next.last() == bytes@[i as int]);
        }
        i = i + 1;
    }
    assert(bytes@.subrange(0, 32) == bytes@);
    let digest = hash_token(secret.as_str());
    let mut stored: Vec<u8> = Vec::new();
    let mut k: usize = 0;
    while k < 32
        invariant
            k <= 32,
            digest@.len() == 32,
            stored@ == digest@.subrange(0, k as int),
        decreases 32 - k,
    {
        stored.push(digest[k]);
        k = k + 1;
    }
    assert(digest@.subrange(0, 32) == digest@);
    (secret, stored)
}

/// Issues a fresh secret: `prefix` followed by 256 random bits in hexadecimal,
/// together with the SHA-256 digest under which it is stored. It fails only
/// where the operating system's random source fails.
pub fn issue_secret(prefix: &str) -> (r: Result<(String, Vec<u8>), ()>)
    ensures
        r matches Ok((secret, digest)) ==> is_secret_with_prefix(secret@, prefix@) && digest@
            == token_digest(secret@),
{
    let bytes = match random_bytes::<32>() {
        Some(b) => b,
        None => {
            return Err(());
        },
    };
    let (secret, digest) = secret_from_bytes(prefix, &bytes);
    assert(bytes@.len() == 32 && secret@ == prefix@ + hex_bytes(bytes@));
    Ok((secret, digest))
}

} // verus!
