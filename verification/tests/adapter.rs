use axum_browser_adapter::{
    axum_response_to_wasm_response, header_name_ok, header_value_ok, is_known_method,
    wasm_request_to_axum_request, AdapterError, AxumResponse, WasmRequest,
};

fn pairs(list: &[(&str, &str)]) -> Vec<(String, String)> {
    let mut v: Vec<(String, String)> = Vec::new();
    for (name, value) in list {
        v.push((name.to_string(), value.to_string()));
    }
    v
}

fn byte_pairs(list: &[(&str, &[u8])]) -> Vec<(String, Vec<u8>)> {
    let mut v: Vec<(String, Vec<u8>)> = Vec::new();
    for (name, value) in list {
        v.push((name.to_string(), value.to_vec()));
    }
    v
}

#[test]
fn get_root_without_body_converts() {
    let request = WasmRequest::new("GET".to_string(), "/".to_string(), Vec::new(), None);
    let converted = wasm_request_to_axum_request(&request).unwrap();
    assert_eq!(converted.method, "GET");
    assert_eq!(converted.uri, "/");
    assert!(converted.headers.is_empty());
    assert_eq!(converted.body, "");
}

#[test]
fn bogus_method_fails() {
    let request = WasmRequest::new("BOGUS".to_string(), "/".to_string(), Vec::new(), None);
    assert_eq!(
        wasm_request_to_axum_request(&request),
        Err(AdapterError::InvalidMethod)
    );
}

#[test]
fn lowercase_method_fails() {
    let request = WasmRequest::new("get".to_string(), "/".to_string(), Vec::new(), None);
    assert_eq!(
        wasm_request_to_axum_request(&request),
        Err(AdapterError::InvalidMethod)
    );
}

#[test]
fn malformed_url_fails() {
    let request = WasmRequest::new("GET".to_string(), "a b".to_string(), Vec::new(), None);
    assert_eq!(
        wasm_request_to_axum_request(&request),
        Err(AdapterError::InvalidUri)
    );
}

#[test]
fn bad_header_name_fails() {
    let headers = pairs(&[("content-type", "text/plain"), ("bad name", "v")]);
    let request = WasmRequest::new("GET".to_string(), "/".to_string(), headers, None);
    assert_eq!(
        wasm_request_to_axum_request(&request),
        Err(AdapterError::InvalidHeader)
    );
}

#[test]
fn bad_header_value_fails() {
    let headers = pairs(&[("x-test", "line\nbreak")]);
    let request = WasmRequest::new("GET".to_string(), "/".to_string(), headers, None);
    assert_eq!(
        wasm_request_to_axum_request(&request),
        Err(AdapterError::InvalidHeader)
    );
}

#[test]
fn request_round_trip_preserves_fields() {
    let headers = pairs(&[("content-type", "text/plain"), ("x-custom", "a value")]);
    let request = WasmRequest::new(
        "POST".to_string(),
        "http://example.com/path?q=1".to_string(),
        headers.clone(),
        Some("hello body".to_string()),
    );
    let converted = wasm_request_to_axum_request(&request).unwrap();
    assert_eq!(converted.method, "POST");
    assert_eq!(converted.uri, "http://example.com/path?q=1");
    assert_eq!(converted.headers, headers);
    assert_eq!(converted.body, "hello body");
}

#[test]
fn legal_headers_all_preserved() {
    let headers = pairs(&[
        ("accept", "*/*"),
        ("x-token-name.0", "tab\tallowed"),
        ("x-empty", ""),
    ]);
    let request = WasmRequest::new("PUT".to_string(), "/x".to_string(), headers.clone(), None);
    let converted = wasm_request_to_axum_request(&request).unwrap();
    assert_eq!(converted.headers, headers);
}

#[test]
fn header_name_case_is_preserved_exactly() {
    let headers = pairs(&[("Content-Type", "text/plain"), ("X-Custom", "v")]);
    let request = WasmRequest::new("GET".to_string(), "/".to_string(), headers.clone(), None);
    let converted = wasm_request_to_axum_request(&request).unwrap();
    assert_eq!(converted.headers, headers);
}

#[test]
fn request_conversion_is_idempotent() {
    let request = WasmRequest::new(
        "DELETE".to_string(),
        "/items/7".to_string(),
        pairs(&[("x-a", "1")]),
        Some("b".to_string()),
    );
    let first = wasm_request_to_axum_request(&request);
    let second = wasm_request_to_axum_request(&request);
    assert_eq!(first, second);
}

#[test]
fn method_recognition() {
    for m in ["GET", "HEAD", "POST", "PUT", "DELETE", "CONNECT", "OPTIONS", "TRACE", "PATCH"] {
        assert!(is_known_method(m));
    }
    assert!(!is_known_method("BOGUS"));
    assert!(!is_known_method(""));
    assert!(!is_known_method("GETX"));
}

#[test]
fn header_grammar() {
    assert!(header_name_ok("content-type"));
    assert!(header_name_ok("x_custom.header~1"));
    assert!(!header_name_ok(""));
    assert!(!header_name_ok("bad name"));
    assert!(!header_name_ok("colon:name"));
    assert!(header_value_ok(""));
    assert!(header_value_ok("plain value"));
    assert!(header_value_ok("tab\tis fine"));
    assert!(!header_value_ok("no\nnewline"));
    assert!(!header_value_ok("no\rreturn"));
}

#[test]
fn response_basic_conversion() {
    let response = AxumResponse {
        status: 200,
        headers: byte_pairs(&[("content-type", b"text/plain")]),
        body_chunks: vec![b"hi".to_vec()],
    };
    let converted = axum_response_to_wasm_response(&response).unwrap();
    assert_eq!(converted.status_code(), "200");
    assert_eq!(
        converted.headers(),
        pairs(&[("content-type", "text/plain")])
    );
    assert_eq!(converted.body(), Some("hi".to_string()));
}

#[test]
fn empty_stream_gives_present_empty_body() {
    let response = AxumResponse {
        status: 204,
        headers: Vec::new(),
        body_chunks: Vec::new(),
    };
    let converted = axum_response_to_wasm_response(&response).unwrap();
    assert_eq!(converted.status_code(), "204");
    assert_eq!(converted.body(), Some(String::new()));
}

#[test]
fn invalid_header_value_is_dropped_not_fatal() {
    let response = AxumResponse {
        status: 200,
        headers: byte_pairs(&[
            ("first", b"one"),
            ("broken", &[0xff, 0xfe]),
            ("last", b"two"),
        ]),
        body_chunks: vec![b"ok".to_vec()],
    };
    let converted = axum_response_to_wasm_response(&response).unwrap();
    assert_eq!(
        converted.headers(),
        pairs(&[("first", "one"), ("last", "two")])
    );
    assert_eq!(converted.body(), Some("ok".to_string()));
}

#[test]
fn repeated_name_keeps_last_decodable_value() {
    let response = AxumResponse {
        status: 200,
        headers: byte_pairs(&[
            ("set-cookie", b"a=1"),
            ("x-other", b"v"),
            ("set-cookie", b"b=2"),
        ]),
        body_chunks: Vec::new(),
    };
    let converted = axum_response_to_wasm_response(&response).unwrap();
    assert_eq!(
        converted.headers(),
        pairs(&[("set-cookie", "b=2"), ("x-other", "v")])
    );
}

#[test]
fn invalid_value_does_not_erase_earlier_one() {
    let response = AxumResponse {
        status: 200,
        headers: byte_pairs(&[("x-flag", b"good"), ("x-flag", &[0xff])]),
        body_chunks: Vec::new(),
    };
    let converted = axum_response_to_wasm_response(&response).unwrap();
    assert_eq!(converted.headers(), pairs(&[("x-flag", "good")]));
}

#[test]
fn non_utf8_body_fails() {
    let response = AxumResponse {
        status: 200,
        headers: Vec::new(),
        body_chunks: vec![vec![0xff, 0x00]],
    };
    assert_eq!(
        axum_response_to_wasm_response(&response),
        Err(AdapterError::InvalidBodyEncoding)
    );
}

#[test]
fn body_chunks_are_concatenated_in_order() {
    let response = AxumResponse {
        status: 200,
        headers: Vec::new(),
        body_chunks: vec![b"he".to_vec(), Vec::new(), b"llo".to_vec()],
    };
    let converted = axum_response_to_wasm_response(&response).unwrap();
    assert_eq!(converted.body(), Some("hello".to_string()));
}

#[test]
fn multibyte_text_survives() {
    let text = "héllo wörld ✓";
    let response = AxumResponse {
        status: 404,
        headers: byte_pairs(&[("x-note", "naïve".as_bytes())]),
        body_chunks: vec![text.as_bytes().to_vec()],
    };
    let converted = axum_response_to_wasm_response(&response).unwrap();
    assert_eq!(converted.status_code(), "404");
    assert_eq!(converted.headers(), pairs(&[("x-note", "naïve")]));
    assert_eq!(converted.body(), Some(text.to_string()));
}

#[test]
fn split_multibyte_character_across_chunks() {
    let bytes = "é".as_bytes();
    let response = AxumResponse {
        status: 200,
        headers: Vec::new(),
        body_chunks: vec![vec![bytes[0]], vec![bytes[1]]],
    };
    let converted = axum_response_to_wasm_response(&response).unwrap();
    assert_eq!(converted.body(), Some("é".to_string()));
}

#[test]
fn response_conversion_is_idempotent() {
    let response = AxumResponse {
        status: 503,
        headers: byte_pairs(&[("retry-after", b"5"), ("broken", &[0x80])]),
        body_chunks: vec![b"busy".to_vec()],
    };
    let first = axum_response_to_wasm_response(&response);
    let second = axum_response_to_wasm_response(&response);
    assert_eq!(first, second);
}

#[test]
fn error_messages_are_readable() {
    assert_eq!(AdapterError::InvalidMethod.message(), "invalid method");
    assert_eq!(AdapterError::InvalidUri.message(), "invalid uri");
    assert_eq!(AdapterError::InvalidHeader.message(), "invalid header");
    assert_eq!(
        AdapterError::InvalidBodyEncoding.message(),
        "response body is not valid utf-8"
    );
}
