//! Commit identities as text: hexadecimal object ids, whole or abbreviated.

use crate::text::{prefix, take_chars};
use vstd::prelude::*;

verus! {

/// A hexadecimal digit, in either case.
pub open spec fn hex_digit(c: char) -> bool {
    ||| c == '0' || c == '1' || c == '2' || c == '3' || c == '4'
    ||| c == '5' || c == '6' || c == '7' || c == '8' || c == '9'
    ||| c == 'a' || c == 'b' || c == 'c' || c == 'd' || c == 'e' || c == 'f'
    ||| c == 'A' || c == 'B' || c == 'C' || c == 'D' || c == 'E' || c == 'F'
}

/// The lower-case form of a hexadecimal digit.
pub open spec fn lower_hex(c: char) -> char {
    if c == 'A' {
        'a'
    } else if c == 'B' {
        'b'
    } else if c == 'C' {
        'c'
    } else if c == 'D' {
        'd'
    } else if c == 'E' {
        'e'
    } else if c == 'F' {
        'f'
    } else {
        c
    }
}

/// A text that names an object: one to forty hexadecimal digits.
pub open spec fn names_object(s: Seq<char>) -> bool {
    &&& 1 <= s.len() <= 40
    &&& forall|i: int| 0 <= i < s.len() ==> hex_digit(#[trigger] s[i])
}

/// The forty-digit form of an abbreviated object id: its digits in lower
/// case, then zeros.
pub open spec fn full_id(s: Seq<char>) -> Seq<char> {
    Seq::new(
        40,
        |i: int|
            if i < s.len() {
                lower_hex(s[i])
            } else {
                '0'
            },
    )
}

/// `git2::Oid::from_str`, then the id's `to_string`: the text is taken as
/// an object id exactly when it is one to forty hexadecimal digits, and the
/// id is then written back as forty lower-case digits, the given ones first
/// and zeros after them.
#[verifier::external_body]
pub(crate) fn parse_object_id(s: &str) -> (id: Option<String>)
    ensures
        id is Some <==> names_object(s@),
        id is Some ==> id->0@ == full_id(s@),
{
    match git2::Oid::from_str(s) {
        Ok(oid) => Some(oid.to_string()),
        Err(_) => None,
    }
}

pub open spec fn invalid_hash_message(hash: Seq<char>) -> Seq<char> {
    "Invalid commit hash: "@ + hash
}

/// The forty-digit form of a commit hash, or why the text is no hash.
pub fn check_commit_hash(hash: &str) -> (r: Result<String, String>)
    ensures
        r is Ok <==> names_object(hash@),
        r is Ok ==> r->Ok_0@ == full_id(hash@),
        r is Err ==> r->Err_0@ == invalid_hash_message(hash@),
{
    match parse_object_id(hash) {
        Some(id) => Ok(id),
        None => {
            let mut message = String::from_str("Invalid commit hash: ");
            message.append(hash);
            Err(message)
        },
    }
}

/// The abbreviated form of a commit hash: its first seven characters.
pub fn short_hash(hash: &str) -> (short: String)
    ensures
        short@ == prefix(hash@, 7),
{
    take_chars(hash, 7)
}

} // verus!
