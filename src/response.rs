//! Reading the record of a request from the HTTP response it received.

use crate::stats::{is_error_status, RequestStat};
use reqwest::blocking::Response;
use vstd::prelude::*;

verus! {

#[verifier::external_type_specification]
#[verifier::external_body]
pub struct ExResponse(reqwest::blocking::Response);

/// The body length that a response announces, if any.
pub uninterp spec fn content_length_of(res: Response) -> Option<u64>;

/// The status code of a response.
pub uninterp spec fn status_of(res: Response) -> u16;

/// The protocol version of a response, in its debug form (`HTTP/1.1`).
pub uninterp spec fn version_text_of(res: Response) -> Seq<char>;

/// The final URL of a response, as text.
pub uninterp spec fn url_text_of(res: Response) -> Seq<char>;

/// Relies on `reqwest::blocking::Response::content_length`: the body length
/// that the response announces, if any.
pub assume_specification[ reqwest::blocking::Response::content_length ](
    res: &reqwest::blocking::Response,
) -> (r: Option<u64>)
    ensures
        r == content_length_of(*res),
;

/// Relies on `reqwest::blocking::Response::status`, read as a number.
#[verifier::external_body]
fn status_code(res: &Response) -> (r: u16)
    ensures
        r == status_of(*res),
{
    res.status().as_u16()
}

/// Relies on `reqwest::blocking::Response::version`, in its debug form
/// (`HTTP/1.1`).
#[verifier::external_body]
fn protocol_text(res: &Response) -> (r: String)
    ensures
        r@ == version_text_of(*res),
{
    format!("{:?}", res.version())
}

/// Relies on `reqwest::blocking::Response::url`: the final URL, as text.
#[verifier::external_body]
fn final_url(res: &Response) -> (r: String)
    ensures
        r@ == url_text_of(*res),
{
    res.url().to_string()
}

impl RequestStat {
    /// The record of `res`, not yet timed. The request succeeded unless the
    /// status is an HTTP error; an unannounced body length counts as zero.
    pub fn from_response(res: &Response) -> (r: RequestStat)
        ensures
            r.proto@ == version_text_of(*res),
            r.url@ == url_text_of(*res),
            r.status == status_of(*res),
            r.success == !is_error_status(status_of(*res)),
            r.size == (match content_length_of(*res) {
                Some(n) => n,
                None => 0,
            }),
            r.duration == 0,
    {
        RequestStat::new(protocol_text(res), final_url(res), status_code(res), res.content_length())
    }
}

} // verus!
