//! The library's only ties to outside crates: whether bytes spell an
//! absolute URL, the calendar date bytes spell, and whether bytes carry an
//! email-shaped substring.  Each answer is a function of the bytes alone, so
//! each is given a name here, and the wrapper below it is trusted to return
//! that name's value.

use vstd::prelude::*;

use chrono::Datelike;

verus! {

/// Whether the bytes decode as UTF-8 and parse as an absolute URL.
pub uninterp spec fn spec_url_ok(s: Seq<u8>) -> bool;

/// The calendar date (year, month, day) that the bytes spell in the fixed
/// `YYYY-MM-DD` format, if any.
pub uninterp spec fn spec_parsed_date(s: Seq<u8>) -> Option<(i32, u32, u32)>;

/// Whether any part of the bytes matches the practical email shape that the
/// author validator enforces.
pub uninterp spec fn spec_email_ok(s: Seq<u8>) -> bool;

/// Relies on `url::Url::parse`, behind `str::from_utf8`: it accepts exactly
/// the strings that parse as absolute URLs, and its answer depends on the
/// input string alone.
#[verifier::external_body]
pub(crate) fn url_ok(s: &[u8]) -> (r: bool)
    ensures
        r == spec_url_ok(s@),
{
    match core::str::from_utf8(s) {
        Ok(t) => url::Url::parse(t).is_ok(),
        Err(_) => false,
    }
}

/// Relies on `chrono::NaiveDate::parse_from_str` with the fixed `%Y-%m-%d`
/// format, behind `str::from_utf8`, and on `chrono::Datelike`'s `year`,
/// `month` and `day`: parsing is deterministic in the input string, and the
/// three accessors return the parsed date's fields.
#[verifier::external_body]
pub(crate) fn parse_date(s: &[u8]) -> (r: Option<(i32, u32, u32)>)
    ensures
        r == spec_parsed_date(s@),
{
    match core::str::from_utf8(s) {
        Ok(t) => match chrono::NaiveDate::parse_from_str(t, "%Y-%m-%d") {
            Ok(d) => Some((d.year(), d.month(), d.day())),
            Err(_) => None,
        },
        Err(_) => None,
    }
}

/// Relies on `regex::bytes::Regex::{new, is_match}` with a fixed pattern:
/// compiling a fixed valid pattern cannot fail, and the match answer depends
/// on the haystack bytes alone.
#[verifier::external_body]
pub(crate) fn email_ok(s: &[u8]) -> (r: bool)
    ensures
        r == spec_email_ok(s@),
{
    let re = regex::bytes::Regex::new(
        r#"(?:[a-z0-9!#$%&'*+/=?^_`{|}~-]+(?:\.[a-z0-9!#$%&'*+/=?^_`{|}~-]+)*|"(?:[\x01-\x08\x0b\x0c\x0e-\x1f\x21\x23-\x5b\x5d-\x7f]|\\[\x01-\x09\x0b\x0c\x0e-\x7f])*")@(?:(?:[a-z0-9](?:[a-z0-9-]*[a-z0-9])?\.)+[a-z0-9](?:[a-z0-9-]*[a-z0-9])?|\[(?:(?:25[0-5]|2[0-4][0-9]|[01]?[0-9][0-9]?)\.){3}(?:25[0-5]|2[0-4][0-9]|[01]?[0-9][0-9]?|[a-z0-9-]*[a-z0-9]:(?:[\x01-\x08\x0b\x0c\x0e-\x1f\x21-\x5a\x53-\x7f]|\\[\x01-\x09\x0b\x0c\x0e-\x7f])+)\])"#,
    ).unwrap();
    re.is_match(s)
}

} // verus!
