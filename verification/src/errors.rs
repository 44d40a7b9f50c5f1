use vstd::prelude::*;

verus! {

/// Why a conversion failed.
///
/// The request side fails fast: an unrecognized method, a malformed URL or
/// the first illegal header pair aborts the whole conversion.  The response
/// side can fail only on a body that is not valid UTF-8 text; a malformed
/// header value there is dropped, never reported.
#[derive(Clone, Copy, Debug, PartialEq, Eq, Structural)]
pub enum AdapterError {
    /// The request's method string is not a recognized HTTP method token.
    InvalidMethod,
    /// The request's URL does not parse as a URI.
    InvalidUri,
    /// A request header has an illegal name or value.
    InvalidHeader,
    /// The response body bytes are not valid UTF-8 text.
    InvalidBodyEncoding,
}

impl AdapterError {
    /// A short human-readable description of the failure.
    pub fn message(&self) -> (m: &'static str)
        ensures
            *self == AdapterError::InvalidMethod ==> m@ == "invalid method"@,
            *self == AdapterError::InvalidUri ==> m@ == "invalid uri"@,
            *self == AdapterError::InvalidHeader ==> m@ == "invalid header"@,
            *self == AdapterError::InvalidBodyEncoding ==> m@ == "response body is not valid utf-8"@,
    {
        match self {
            AdapterError::InvalidMethod => "invalid method",
            AdapterError::InvalidUri => "invalid uri",
            AdapterError::InvalidHeader => "invalid header",
            AdapterError::InvalidBodyEncoding => "response body is not valid utf-8",
        }
    }
}

} // verus!
