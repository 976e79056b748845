//! The parts of the database layer that compute rather than query: the
//! messages that database failures are reported with, and the profile picture
//! address stored for a user.

use vstd::prelude::*;
use crate::structs::User;
use crate::text::{ends_with, has_suffix, lemma_without_trailing, trim_end_matches, without_trailing, opt_view};

verus! {

/// Message for a failed insertion, followed by the database's own report.
pub fn insert_err(detail: &str) -> (r: String)
    ensures
        r@ == "database insertion error:\n"@ + detail@,
{
    String::from_str("database insertion error:\n").concat(detail)
}

/// Message for a failed selection, followed by the database's own report.
pub fn select_err(detail: &str) -> (r: String)
    ensures
        r@ == "database selection error:\n"@ + detail@,
{
    String::from_str("database selection error:\n").concat(detail)
}

/// Message for a failed update, followed by the database's own report.
pub fn update_err(detail: &str) -> (r: String)
    ensures
        r@ == "database updating error:\n"@ + detail@,
{
    String::from_str("database updating error:\n").concat(detail)
}

/// Message for a failed deletion, followed by the database's own report.
pub fn delete_err(detail: &str) -> (r: String)
    ensures
        r@ == "database deletion error:\n"@ + detail@,
{
    String::from_str("database deletion error:\n").concat(detail)
}

/// Message for a failed count.
pub fn count_err() -> (r: &'static str)
    ensures
        r@ == "database counting error"@,
{
    "database counting error"
}

/// Message for a row that the database's constraints guarantee but that was
/// not found.
pub fn db_expect() -> (r: &'static str)
    ensures
        r@ == "database constraints means this resource will always be present in the database."@,
{
    "database constraints means this resource will always be present in the database."
}

/// A user that the constraints guarantee to exist, or the message saying it
/// was missing.
pub fn user_or_missing(found: Option<User>) -> (r: Result<User, String>)
    ensures
        found matches Some(u) ==> r == Ok::<User, String>(u),
        found is None ==> (r matches Err(m) && m@
            == "database constraints means this resource will always be present in the database."@),
{
    match found {
        Some(u) => Ok(u),
        None => Err(String::from_str(db_expect())),
    }
}

/// The profile picture address kept for a user, given the 64 and 256 pixel
/// avatar addresses of their profile: none when the small avatar is the
/// placeholder image, otherwise the large avatar's address without its
/// trailing `-256` size marks.
pub open spec fn avatar_address(avatar_r64: Seq<char>, avatar_r256: Seq<char>) -> Option<Seq<char>> {
    if has_suffix(avatar_r64, "none_64.png"@) {
        None
    } else {
        Some(without_trailing(avatar_r256, "-256"@))
    }
}

/// A kept profile picture address never ends with `-256`, is a prefix of the
/// large avatar's address, and keeping it again changes nothing.
pub proof fn lemma_avatar_address_is_trimmed(avatar_r64: Seq<char>, avatar_r256: Seq<char>)
    ensures
        avatar_address(avatar_r64, avatar_r256) matches Some(kept) ==> {
            &&& !has_suffix(kept, "-256"@)
            &&& avatar_r256.subrange(0, kept.len() as int) == kept
            &&& avatar_address(avatar_r64, kept) == Some(kept)
        },
{
    reveal_strlit("-256");
    lemma_without_trailing(avatar_r256, "-256"@);
}

/// The profile picture address kept for a user (see `avatar_address`).
pub fn pfp_url(avatar_r64: &str, avatar_r256: &str) -> (r: Option<String>)
    ensures
        opt_view(r) == avatar_address(avatar_r64@, avatar_r256@),
{
    if ends_with(avatar_r64, "none_64.png") {
        None
    } else {
        Some(trim_end_matches(avatar_r256, "-256"))
    }
}

} // verus!
