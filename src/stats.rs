//! The record of one request attempt.

use vstd::prelude::*;

verus! {

/// True of the HTTP error classes: client errors (4xx) and server errors (5xx).
pub open spec fn is_error_status(status: u16) -> bool {
    400 <= status < 600
}

/// Whether `status` belongs to an HTTP error class.
pub fn status_is_error(status: u16) -> (r: bool)
    ensures
        r == is_error_status(status),
{
    400 <= status && status < 600
}

/// The observable result of one request: protocol version, final URL,
/// latency in nanoseconds, status code, success flag and body size in bytes.
pub struct RequestStat {
    pub proto: String,
    pub url: String,
    pub duration: u64,
    pub status: u16,
    pub success: bool,
    pub size: u64,
}

impl RequestStat {
    /// A record of a response, not yet timed: its duration is zero. The
    /// request succeeded unless the status is an HTTP error; an unknown
    /// body size counts as zero bytes.
    pub fn new(proto: String, url: String, status: u16, content_length: Option<u64>) -> (r:
        RequestStat)
        ensures
            r.proto == proto,
            r.url == url,
            r.status == status,
            r.success == !is_error_status(status),
            r.size == (match content_length {
                Some(n) => n,
                None => 0,
            }),
            r.duration == 0,
    {
        let size = match content_length {
            Some(n) => n,
            None => 0,
        };
        RequestStat { proto, url, duration: 0, status, success: !status_is_error(status), size }
    }

    /// The same record with its latency set to `duration` nanoseconds.
    pub fn with_duration(self, duration: u64) -> (r: Self)
        ensures
            r.duration == duration,
            r.proto == self.proto,
            r.url == self.url,
            r.status == self.status,
            r.success == self.success,
            r.size == self.size,
    {
        RequestStat { duration, ..self }
    }
}

} // verus!
