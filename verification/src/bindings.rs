//! The few items of other crates that the library leans on. Their contracts
//! are taken on trust: nothing here is proved.

use vstd::prelude::*;
use crate::contract::hex_text;
use crate::numeral::{is_numeral, numeral_value};

verus! {

/// `semver::Version`: the compiler version that blocks and elements carry
/// along. Nothing is known of what a value holds.
#[verifier::external_type_specification]
#[verifier::external_body]
pub struct ExVersion(semver::Version);

/// `md5::Digest`: the digest of an alternative route into a block. Nothing is
/// known of what a value holds.
#[verifier::external_type_specification]
#[verifier::external_body]
pub struct ExDigest(md5::Digest);

/// `serde_json::Value`: metadata that a caller hands in as JSON. Nothing is
/// known of what a value holds.
#[verifier::external_type_specification]
#[verifier::external_body]
pub struct ExValue(serde_json::Value);

/// `Clone::clone` of `semver::Version`: the copy is the version it was made of.
pub assume_specification[ <semver::Version as Clone>::clone ](version: &semver::Version) -> (copy:
    semver::Version)
    ensures
        copy == *version,
;

/// The number that `num::BigUint`'s parser reads from `text`, or `None` where
/// it rejects the text.
pub uninterp spec fn tag_number(text: Seq<char>) -> Option<nat>;

/// `<num::BigUint as FromStr>::from_str`, and `ToString::to_string` on what it
/// gives. Claims that the text returned is the canonical decimal numeral of
/// the number parsed, that `None` comes back exactly where the parser
/// rejects `text`, and that a canonical decimal numeral is accepted and
/// comes back as it is.
#[verifier::external_body]
pub(crate) fn parse_tag_numeral(text: &str) -> (numeral: Option<String>)
    ensures
        match numeral {
            Some(digits) => is_numeral(digits@) && tag_number(text@) == Some(
                numeral_value(digits@),
            ),
            None => tag_number(text@) is None,
        },
        is_numeral(text@) ==> numeral is Some && numeral.unwrap()@ == text@,
{
    match text.parse::<num::BigUint>() {
        Ok(number) => Some(number.to_string()),
        Err(_) => None,
    }
}

/// `<num::BigUint as num::Zero>::zero`, and `ToString::to_string` on what it
/// gives. Claims that zero is written as the single digit `0`.
#[verifier::external_body]
pub(crate) fn zero_tag_numeral() -> (numeral: String)
    ensures
        numeral@ == seq!['0'],
{
    <num::BigUint as num::Zero>::zero().to_string()
}

/// The Keccak-256 digest of `data`, as `sha3` computes it.
pub uninterp spec fn keccak256(data: Seq<u8>) -> Seq<u8>;

/// `<sha3::Keccak256 as sha3::Digest>::digest`. Claims that the 32 bytes
/// returned depend on the bytes of `data` alone.
#[verifier::external_body]
pub(crate) fn keccak256_digest(data: &[u8]) -> (digest: [u8; 32])
    ensures
        digest@ == keccak256(data@),
{
    <sha3::Keccak256 as sha3::Digest>::digest(data).into()
}

/// `hex::encode`. Claims that each byte is written as two lower-case
/// hexadecimal digits, the high one first, in the order of the bytes.
#[verifier::external_body]
pub(crate) fn hex_encode(data: &[u8]) -> (text: String)
    ensures
        text@ == hex_text(data@),
{
    hex::encode(data)
}

} // verus!
