//! Reading a player's identifier.

use std::str::FromStr;
use uuid::Uuid;
use vstd::prelude::*;

verus! {

/// The value that `uuid::Uuid::from_str` reads from `text`, as the 128-bit
/// number `Uuid::as_u128` gives for it, or `None` where it rejects `text`.
pub uninterp spec fn uuid_from_text(text: Seq<char>) -> Option<u128>;

/// Parses `text` with `uuid::Uuid::from_str`.
///
/// Trusted: the result is what the `uuid` crate makes of `text`, with a
/// parsed identifier turned into its 128-bit value by `Uuid::as_u128` and
/// every parse error turned into `None`. The parser reads nothing but `text`
/// and returns on every input.
#[verifier::external_body]
pub(crate) fn parse_uuid(text: &str) -> (id: Option<u128>)
    ensures
        id == uuid_from_text(text@),
{
    match Uuid::from_str(text) {
        Ok(uuid) => Some(uuid.as_u128()),
        Err(_) => None,
    }
}

} // verus!
