//! HTTP status codes, through reqwest's `StatusCode`.

use vstd::prelude::*;

verus! {

/// How reqwest's `StatusCode` displays a status: the three-digit code, a
/// space, and the canonical reason phrase (or `<unknown status code>`).
pub uninterp spec fn status_line(code: u16) -> Seq<char>;

/// `reqwest::StatusCode::from_u16` followed by `StatusCode::is_success`:
/// `from_u16` accepts every code from 100 to 999 and refuses the others, and
/// `is_success` holds for 200 to 299.
#[verifier::external_body]
fn status_code_is_success(code: u16) -> (r: bool)
    ensures
        r == (200 <= code < 300),
{
    match reqwest::StatusCode::from_u16(code) {
        Ok(status) => status.is_success(),
        Err(_) => false,
    }
}

/// `reqwest::StatusCode::from_u16` followed by its `Display` (through
/// `to_string`): the result is named `status_line`; nothing more of the
/// reason phrase is stated.
#[verifier::external_body]
fn status_code_text(code: u16) -> (r: String)
    requires
        100 <= code <= 999,
    ensures
        r@ == status_line(code),
{
    match reqwest::StatusCode::from_u16(code) {
        Ok(status) => status.to_string(),
        Err(_) => String::new(),
    }
}

/// Whether a response status counts as success.
pub fn is_success(code: u16) -> (r: bool)
    ensures
        r == (200 <= code < 300),
{
    status_code_is_success(code)
}

/// How a response status reads in messages, e.g. `404 Not Found`.
pub fn status_text(code: u16) -> (r: String)
    requires
        100 <= code <= 999,
    ensures
        r@ == status_line(code),
{
    status_code_text(code)
}

} // verus!
