//! `KEY:VALUE` arguments and the HTTP request methods.

use vstd::prelude::*;

verus! {

/// Relies on `str::split_once`: it splits at the first occurrence of the
/// delimiter and returns the text before it and the text after it, or
/// `None` where the delimiter does not occur.
#[verifier::external_body]
fn split_at_first_colon(s: &str) -> (r: Option<(&str, &str)>)
    ensures
        r is None <==> !s@.contains(':'),
        r matches Some((a, b)) ==> s@ == a@ + seq![':'] + b@ && !a@.contains(':'),
{
    s.split_once(':')
}

/// Why an argument is not a `KEY:VALUE` pair.
#[derive(Clone, Copy, Debug, PartialEq, Eq, Structural)]
pub enum KeyValError {
    /// The argument holds no `:`.
    NoSeparator,
}

/// Splits `s` at its first `:` into a key and a value. The key holds no
/// `:`; the value is everything after the separator.
pub fn parse_key_val(s: &str) -> (r: Result<(String, String), KeyValError>)
    ensures
        r is Err <==> !s@.contains(':'),
        r is Err ==> r == Err::<(String, String), KeyValError>(KeyValError::NoSeparator),
        r matches Ok((k, v)) ==> s@ == k@ + seq![':'] + v@ && !k@.contains(':'),
{
    match split_at_first_colon(s) {
        Some((k, v)) => Ok((k.to_owned(), v.to_owned())),
        None => Err(KeyValError::NoSeparator),
    }
}

/// An HTTP request method.
#[derive(Clone, Copy, Debug, PartialEq, Eq, Structural)]
pub enum Method {
    Get,
    Post,
    Put,
    Delete,
    Head,
    Options,
    Connect,
    Patch,
    Trace,
}

} // verus!
