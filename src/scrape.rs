//! One scrape of a source: where it is fetched from, how its reply is judged,
//! and how the requested fields are read out of the body.
use vstd::prelude::*;
use crate::decimal::{reading_of, parse_reading};
use crate::text::{field_text, find_field_text, first_line_with, chars_of};

verus! {

/// Why a scrape produced no body.
pub enum FetchError {
    /// The source could not be reached (name lookup, connection, timeout).
    Unreachable(String),
    /// The source answered with a status outside 200..=299.
    BadStatus(u16),
}

/// The metrics address of a source: `http://<address>:9644/metrics`.
pub open spec fn url_for(address: Seq<char>) -> Seq<char> {
    "http://"@ + address + ":9644/metrics"@
}

/// The URL that a source at `address` is scraped from.
pub fn scrape_url(address: &str) -> (r: String)
    ensures
        r@ == url_for(address@),
{
    let mut url = String::from_str("http://");
    url.append(address);
    url.append(":9644/metrics");
    url
}

pub open spec fn is_success(status: u16) -> bool {
    200 <= status <= 299
}

/// Judges a reply: its body where the status is a success, else the status.
pub fn check_status(status: u16, body: String) -> (r: Result<String, FetchError>)
    ensures
        is_success(status) ==> r == Ok::<String, FetchError>(body),
        !is_success(status) ==> r == Err::<String, FetchError>(FetchError::BadStatus(status)),
{
    if 200 <= status && status <= 299 {
        Ok(body)
    } else {
        Err(FetchError::BadStatus(status))
    }
}

/// The value of `field` in `body`, in millionths, where the body gives one.
pub open spec fn field_reading(body: Seq<char>, field: Seq<char>) -> Option<int> {
    match field_text(body, field) {
        Some(v) => reading_of(v),
        None => None,
    }
}

/// The value of `field` in `body`; zero where it is missing or malformed.
pub open spec fn field_or_zero(body: Seq<char>, field: Seq<char>) -> int {
    match field_reading(body, field) {
        Some(v) => v,
        None => 0,
    }
}

/// A field that no line of the body holds, or whose value is malformed,
/// reads as zero; reading it is no error.
pub proof fn lemma_missing_field_reads_zero(body: Seq<char>, field: Seq<char>)
    requires
        first_line_with(body, field, 0) is None || field_reading(body, field) is None,
    ensures
        field_or_zero(body, field) == 0,
{
}

/// Reads `field` out of the characters of a body.
pub fn reading_in(body: &[char], field: &[char]) -> (r: Option<i64>)
    ensures
        match r {
            Some(v) => field_reading(body@, field@) == Some(v as int),
            None => field_reading(body@, field@) is None,
        },
{
    match find_field_text(body, field) {
        Some((a, b)) => parse_reading(body, a, b),
        None => None,
    }
}

/// Reads `field` out of `body`: its value in millionths, where the body has
/// a line that contains the field's name and a well-formed value after `=`.
pub fn read_field(body: &str, field: &str) -> (r: Option<i64>)
    ensures
        match r {
            Some(v) => field_reading(body@, field@) == Some(v as int),
            None => field_reading(body@, field@) is None,
        },
{
    let b = chars_of(body);
    let f = chars_of(field);
    reading_in(b.as_slice(), f.as_slice())
}

/// Reads `field` out of `body`, with zero for a value that is missing or
/// malformed.
pub fn read_field_or_zero(body: &str, field: &str) -> (r: i64)
    ensures
        r == field_or_zero(body@, field@),
{
    match read_field(body, field) {
        Some(v) => v,
        None => 0,
    }
}

} // verus!
