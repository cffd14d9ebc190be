//! Whether a text can stand in a `Location` header.

use std::str::FromStr;
use vstd::prelude::*;

verus! {

/// Whether `text` is a URI as an HTTP header takes it.
pub uninterp spec fn is_valid_uri(text: Seq<char>) -> bool;

/// Calls `warp::http::Uri::from_str` and keeps whether it succeeded. The
/// result is taken to depend on the text alone.
#[verifier::external_body]
pub(crate) fn uri_is_valid(text: &str) -> (valid: bool)
    ensures
        valid == is_valid_uri(text@),
{
    warp::http::Uri::from_str(text).is_ok()
}

} // verus!
