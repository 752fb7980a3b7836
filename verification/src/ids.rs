//! Capture ids as the frontend sends them: ULIDs, 26 characters of
//! Crockford base32, read case-insensitively and handed on in their
//! canonical upper-case form.

use vstd::prelude::*;
use crate::store::concat_str;

verus! {

/// The value of an upper-case Crockford base32 digit: `0`-`9`, then the
/// letters but `I`, `L`, `O` and `U`.
pub open spec fn upper_crockford_value(c: char) -> Option<int> {
    if '0' <= c && c <= '9' {
        Some(c as int - '0' as int)
    } else if 'A' <= c && c <= 'H' {
        Some(c as int - 'A' as int + 10)
    } else if c == 'J' || c == 'K' {
        Some(c as int - 'J' as int + 18)
    } else if c == 'M' || c == 'N' {
        Some(c as int - 'M' as int + 20)
    } else if 'P' <= c && c <= 'T' {
        Some(c as int - 'P' as int + 22)
    } else if 'V' <= c && c <= 'Z' {
        Some(c as int - 'V' as int + 27)
    } else {
        None
    }
}

/// The value of a Crockford base32 digit in either case.
pub open spec fn crockford_value(c: char) -> Option<int> {
    if 'a' <= c && c <= 'z' {
        upper_crockford_value(((c as int) - 32) as char)
    } else {
        upper_crockford_value(c)
    }
}

/// The upper-case Crockford digit of a value below 32.
pub open spec fn crockford_digit(v: int) -> char {
    "0123456789ABCDEFGHJKMNPQRSTVWXYZ"@[v]
}

/// Whether `id` is 26 Crockford digits.
pub open spec fn is_ulid_text(id: Seq<char>) -> bool {
    id.len() == 26 && forall|i: int| 0 <= i < 26 ==> (#[trigger] crockford_value(id[i])) is Some
}

/// The canonical text of the ULID that `id` reads as, if it reads as one.
/// The 26 digits make 130 bits of which a ULID keeps the low 128, so the
/// first digit keeps only its value modulo 8.
pub open spec fn ulid_text(id: Seq<char>) -> Option<Seq<char>> {
    if is_ulid_text(id) {
        Some(Seq::new(26, |i: int|
            if i == 0 {
                crockford_digit(crockford_value(id[0])->0 % 8)
            } else {
                crockford_digit(crockford_value(id[i])->0)
            }))
    } else {
        None
    }
}

/// Whether every character of `s` is ASCII.
pub open spec fn all_ascii(s: Seq<char>) -> bool {
    forall|i: int| 0 <= i < s.len() ==> (#[trigger] s[i]) as int <= 0x7f
}

/// The message of a text that is no ULID: its length is wrong, or it
/// holds a character that is no Crockford digit. For an ASCII text, the
/// first is a length other than 26; a non-ASCII text gets one of the two.
pub open spec fn ulid_error_text(id: Seq<char>, m: Seq<char>) -> bool {
    &&& (m == "invalid length"@ || m == "invalid character"@)
    &&& all_ascii(id) ==> m == (if id.len() != 26 {
        "invalid length"@
    } else {
        "invalid character"@
    })
}

/// `ulid::Ulid::from_str`, then `to_string` of the ULID; on failure the
/// `Display` text of the decode error. The contract claims ulid's decoding
/// rule (base32.rs): exactly 26 bytes, each a Crockford digit in either
/// case, shifted into a `u128`; and that encoding writes the value back as
/// 26 upper-case digits.
#[verifier::external_body]
fn decode_ulid(id: &str) -> (r: Result<String, String>)
    ensures
        r is Ok <==> ulid_text(id@) is Some,
        r matches Ok(s) ==> ulid_text(id@) == Some(s@),
        r matches Err(m) ==> ulid_error_text(id@, m@),
{
    match id.parse::<ulid::Ulid>() {
        Ok(u) => Ok(u.to_string()),
        Err(e) => Err(e.to_string()),
    }
}

/// The canonical id of a capture given by the frontend, or
/// `invalid id: ` followed by why it is none.
pub fn parse_capture_id(id: &str) -> (r: Result<String, String>)
    ensures
        r is Ok <==> ulid_text(id@) is Some,
        r matches Ok(s) ==> ulid_text(id@) == Some(s@),
        r matches Err(m) ==> ulid_text(id@) is None && exists|e: Seq<char>|
            ulid_error_text(id@, e) && m@ == "invalid id: "@ + e,
{
    match decode_ulid(id) {
        Ok(s) => Ok(s),
        Err(e) => {
            let m = concat_str("invalid id: ", e.as_str());
            assert(ulid_error_text(id@, e@) && m@ == "invalid id: "@ + e@);
            Err(m)
        },
    }
}

/// The canonical id of a page cursor given by the frontend, or
/// `invalid cursor: ` followed by why it is none.
pub fn parse_cursor(cursor: &str) -> (r: Result<String, String>)
    ensures
        r is Ok <==> ulid_text(cursor@) is Some,
        r matches Ok(s) ==> ulid_text(cursor@) == Some(s@),
        r matches Err(m) ==> ulid_text(cursor@) is None && exists|e: Seq<char>|
            ulid_error_text(cursor@, e) && m@ == "invalid cursor: "@ + e,
{
    match decode_ulid(cursor) {
        Ok(s) => Ok(s),
        Err(e) => {
            let m = concat_str("invalid cursor: ", e.as_str());
            assert(ulid_error_text(cursor@, e@) && m@ == "invalid cursor: "@ + e@);
            Err(m)
        },
    }
}

} // verus!
