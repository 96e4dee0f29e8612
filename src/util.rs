//! Parsing of optional settings and fresh identifiers.
use vstd::prelude::*;

verus! {

/// Relies on `str::parse`: the text read as a `T`, or `None` where `T`'s
/// parser refuses it.
#[verifier::external_body]
fn parse_text<T: std::str::FromStr>(s: &str) -> (r: Option<T>) {
    s.parse::<T>().ok()
}

/// Reads a `T` from a string that may have failed to arrive: a missing
/// string gives `None`, and so does one that `T` does not parse.
pub fn try_parse_string<T: std::str::FromStr, E>(string: Result<String, E>) -> (r: Option<T>)
    ensures
        string is Err ==> r is None,
{
    match string {
        Ok(s) => parse_text(s.as_str()),
        Err(_) => None,
    }
}

pub open spec fn is_lower_hex(c: char) -> bool {
    ('0' <= c && c <= '9') || ('a' <= c && c <= 'f')
}

/// A random (version 4) UUID in its lowercase hyphenated text form.
pub open spec fn is_v4_uuid_text(s: Seq<char>) -> bool {
    &&& s.len() == 36
    &&& forall|i: int|
        0 <= i < 36 ==> if i == 8 || i == 13 || i == 18 || i == 23 {
            s[i] == '-'
        } else {
            is_lower_hex(#[trigger] s[i])
        }
    &&& s[14] == '4'
    &&& (s[19] == '8' || s[19] == '9' || s[19] == 'a' || s[19] == 'b')
}

/// Relies on `uuid::Uuid::new_v4`, which fixes the version and variant bits
/// of a random value, and on its `Display`, the lowercase hyphenated form.
#[verifier::external_body]
pub fn get_uuid() -> (r: String)
    ensures
        is_v4_uuid_text(r@),
{
    uuid::Uuid::new_v4().to_string()
}

} // verus!
