//! Conversion shim between a browser-side request/response representation and
//! the wrapped web framework's native HTTP message types.
//!
//! The library owns two single-shot, pure conversions:
//! request side, a plain [`WasmRequest`](request::WasmRequest) record is
//! validated and turned into the data of a framework request; response side,
//! the drained parts of a framework response are turned into a plain
//! [`WasmResponse`](response::WasmResponse) record.  Each conversion either
//! fully succeeds or fails with an [`AdapterError`](errors::AdapterError);
//! the one deliberate exception is the response side's header handling,
//! which silently drops a header value that is not valid UTF-8: the header
//! map collapses to one entry per name, the last decodable value winning,
//! and a name whose values all fail to decode is absent.

pub mod errors;
pub mod text;
pub mod grammar;
pub mod request;
pub mod response;

pub use errors::AdapterError;
pub use grammar::{header_name_ok, header_value_ok, is_known_method};
pub use request::{AxumRequest, WasmRequest, wasm_request_to_axum_request};
pub use response::{AxumResponse, WasmResponse, axum_response_to_wasm_response};
