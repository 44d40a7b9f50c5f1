use vstd::prelude::*;
use crate::errors::AdapterError;
use crate::grammar::{known_method, token_ok, value_ok, is_known_method, header_name_ok,
    header_value_ok};
use crate::text::clone_string_pairs;

verus! {

/// Whether a string parses as a URI; names the outcome of the `http`
/// crate's URI parser, which is a function of the string's characters alone.
pub uninterp spec fn uri_wellformed(s: Seq<char>) -> bool;

/// Relies on `http::Uri::try_from(&str)` (called through axum's re-export of
/// the `http` crate): the parse is a pure function of the string, succeeding
/// exactly on the strings named well-formed by [`uri_wellformed`].
#[verifier::external_body]
fn parse_uri_ok(s: &str) -> (r: bool)
    ensures
        r == uri_wellformed(s@),
{
    axum::http::Uri::try_from(s).is_ok()
}

/// The browser-side request record: a method, a URL, a header map carried
/// as name/value pairs, and an optional text body.
#[derive(Clone, Debug, PartialEq)]
pub struct WasmRequest {
    pub method: String,
    pub url: String,
    pub headers: Vec<(String, String)>,
    pub body: Option<String>,
}

/// The request record, field by field, as mathematical values.
pub struct WasmRequestView {
    pub method: Seq<char>,
    pub url: Seq<char>,
    pub headers: Seq<(Seq<char>, Seq<char>)>,
    pub body: Option<Seq<char>>,
}

impl View for WasmRequest {
    type V = WasmRequestView;

    open spec fn view(&self) -> WasmRequestView {
        WasmRequestView {
            method: self.method@,
            url: self.url@,
            headers: self.headers.deep_view(),
            body: self.body.deep_view(),
        }
    }
}

impl WasmRequest {
    /// Builds the record from its four fields.
    pub fn new(method: String, url: String, headers: Vec<(String, String)>, body: Option<
        String,
    >) -> (r: WasmRequest)
        ensures
            r@.method == method@,
            r@.url == url@,
            r@.headers == headers.deep_view(),
            r@.body == body.deep_view(),
    {
        WasmRequest { method, url, headers, body }
    }
}

/// The library's model of the framework-native request: exactly the data
/// the wrapped framework's request builder receives.  The method is a
/// recognized token, the URI string parses, every header pair is legal, and
/// the body is the payload text (empty when the browser request had none).
#[derive(Clone, Debug, PartialEq)]
pub struct AxumRequest {
    pub method: String,
    pub uri: String,
    pub headers: Vec<(String, String)>,
    pub body: String,
}

/// The framework-request model, field by field, as mathematical values.
pub struct AxumRequestView {
    pub method: Seq<char>,
    pub uri: Seq<char>,
    pub headers: Seq<(Seq<char>, Seq<char>)>,
    pub body: Seq<char>,
}

impl View for AxumRequest {
    type V = AxumRequestView;

    open spec fn view(&self) -> AxumRequestView {
        AxumRequestView {
            method: self.method@,
            uri: self.uri@,
            headers: self.headers.deep_view(),
            body: self.body@,
        }
    }
}

impl AxumRequestView {
    /// Well-formedness of the framework-request model: what the validation
    /// established of every successfully converted request.
    pub open spec fn wf(self) -> bool {
        known_method(self.method) && uri_wellformed(self.uri) && headers_ok(self.headers)
    }
}

/// One legal request header pair: a token name and a printable value.
pub open spec fn header_pair_ok(p: (Seq<char>, Seq<char>)) -> bool {
    token_ok(p.0) && value_ok(p.1)
}

/// Every pair of the header map is legal.
pub open spec fn headers_ok(hs: Seq<(Seq<char>, Seq<char>)>) -> bool {
    forall|i: int| 0 <= i < hs.len() ==> header_pair_ok(hs[i])
}

/// The request payload: the body text when present, empty text otherwise.
pub open spec fn request_body_payload(b: Option<Seq<char>>) -> Seq<char> {
    match b {
        Some(t) => t,
        None => Seq::empty(),
    }
}

/// What converting a browser request yields: the first validation failure
/// in the order method, URL, headers, or else the framework-request data
/// with every field carried over unchanged.
pub open spec fn request_conversion(r: WasmRequestView) -> Result<AxumRequestView, AdapterError> {
    if !known_method(r.method) {
        Err(AdapterError::InvalidMethod)
    } else if !uri_wellformed(r.url) {
        Err(AdapterError::InvalidUri)
    } else if !headers_ok(r.headers) {
        Err(AdapterError::InvalidHeader)
    } else {
        Ok(
            AxumRequestView {
                method: r.method,
                uri: r.url,
                headers: r.headers,
                body: request_body_payload(r.body),
            },
        )
    }
}

/// The conversion result as mathematical values.
pub open spec fn result_request_view(r: Result<AxumRequest, AdapterError>) -> Result<
    AxumRequestView,
    AdapterError,
> {
    match r {
        Ok(a) => Ok(a@),
        Err(e) => Err(e),
    }
}

/// Converts a browser request record into the framework request's data, or
/// fails on the first invalid field: an unrecognized method, a URL that does
/// not parse as a URI, or an illegal header pair.  No partial conversion:
/// either every field is validated and carried over, or nothing is built.
pub fn wasm_request_to_axum_request(wasm_request: &WasmRequest) -> (result: Result<
    AxumRequest,
    AdapterError,
>)
    ensures
        result_request_view(result) == request_conversion(wasm_request@),
        result matches Ok(a) ==> a@.wf(),
{
    if !is_known_method(wasm_request.method.as_str()) {
        return Err(AdapterError::InvalidMethod);
    }
    if !parse_uri_ok(wasm_request.url.as_str()) {
        return Err(AdapterError::InvalidUri);
    }
    let n = wasm_request.headers.len();
    let mut i: usize = 0;
    while i < n
        invariant
            known_method(wasm_request@.method),
            uri_wellformed(wasm_request@.url),
            n == wasm_request.headers.len(),
            i <= n,
            forall|j: int| 0 <= j < i ==> header_pair_ok(wasm_request@.headers[j]),
        decreases n - i,
    {
        let pair = &wasm_request.headers[i];
        if !header_name_ok(pair.0.as_str()) || !header_value_ok(pair.1.as_str()) {
            proof {
                assert(wasm_request@.headers[i as int] == (pair.0@, pair.1@));
                assert(!header_pair_ok(wasm_request@.headers[i as int]));
                assert(!headers_ok(wasm_request@.headers));
            }
            return Err(AdapterError::InvalidHeader);
        }
        i = i + 1;
    }
    assert(headers_ok(wasm_request@.headers));
    let body = match &wasm_request.body {
        Some(text) => text.clone(),
        None => String::new(),
    };
    Ok(
        AxumRequest {
            method: wasm_request.method.clone(),
            uri: wasm_request.url.clone(),
            headers: clone_string_pairs(&wasm_request.headers),
            body,
        },
    )
}

/// Law: a request with a recognized method, a URL that parses as a URI,
/// legal headers and a present text body converts successfully, and the
/// framework request's method, URI, headers and body equal the inputs
/// exactly.
pub proof fn lemma_request_round_trip(r: WasmRequestView, b: Seq<char>)
    requires
        known_method(r.method),
        uri_wellformed(r.url),
        headers_ok(r.headers),
        r.body == Some(b),
    ensures
        request_conversion(r) matches Ok(a) && a.method == r.method && a.uri == r.url && a.headers
            == r.headers && a.body == b,
{
}

/// Law: under a recognized method and a well-formed URL, a header map made
/// only of legal token names and printable values never causes failure, and
/// every pair of it is preserved unchanged.
pub proof fn lemma_legal_headers_preserved(r: WasmRequestView)
    requires
        known_method(r.method),
        uri_wellformed(r.url),
        headers_ok(r.headers),
    ensures
        request_conversion(r) matches Ok(a) && a.headers == r.headers,
{
}

/// Law: the request conversion is a function of the input record alone, so
/// running it twice on the same input yields structurally identical results.
pub proof fn lemma_request_conversion_idempotent(
    r: WasmRequestView,
    out1: Result<AxumRequestView, AdapterError>,
    out2: Result<AxumRequestView, AdapterError>,
)
    requires
        out1 == request_conversion(r),
        out2 == request_conversion(r),
    ensures
        out1 == out2,
{
}

} // verus!
