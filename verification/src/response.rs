use vstd::prelude::*;
use vstd::pervasive::VecAdditionalExecFns;
use vstd::utf8::{valid_utf8, decode_utf8};
use crate::errors::AdapterError;
use crate::text::{clone_string_pairs, dec_rep, str_eq, u16_to_decimal};

verus! {

/// Relies on `String::from_utf8`: it returns the decoded string exactly when
/// the bytes are valid UTF-8, which vstd's `valid_utf8` and `decode_utf8`
/// state byte by byte.
#[verifier::external_body]
fn utf8_to_string(bytes: &Vec<u8>) -> (r: Option<String>)
    ensures
        r is Some <==> valid_utf8(bytes@),
        r matches Some(s) ==> s@ == decode_utf8(bytes@),
{
    String::from_utf8(bytes.clone()).ok()
}

/// The library's model of the framework-native response, as handed over once
/// the framework is done with a request: the numeric status code, the header
/// pairs with their raw byte values, and the chunks its body stream yielded,
/// in order, until it was exhausted.
#[derive(Clone, Debug, PartialEq)]
pub struct AxumResponse {
    pub status: u16,
    pub headers: Vec<(String, Vec<u8>)>,
    pub body_chunks: Vec<Vec<u8>>,
}

/// The framework-response model, field by field, as mathematical values.
pub struct AxumResponseView {
    pub status: u16,
    pub headers: Seq<(Seq<char>, Seq<u8>)>,
    pub chunks: Seq<Seq<u8>>,
}

impl View for AxumResponse {
    type V = AxumResponseView;

    open spec fn view(&self) -> AxumResponseView {
        AxumResponseView {
            status: self.status,
            headers: self.headers.deep_view(),
            chunks: self.body_chunks.deep_view(),
        }
    }
}

/// The browser-side response record: a decimal status line, a header map
/// carried as name/value pairs with one entry per name, and the body text,
/// always present.
#[derive(Clone, Debug, PartialEq)]
pub struct WasmResponse {
    pub status_code: String,
    pub headers: Vec<(String, String)>,
    pub body: Option<String>,
}

/// The response record, field by field, as mathematical values.
pub struct WasmResponseView {
    pub status_code: Seq<char>,
    pub headers: Seq<(Seq<char>, Seq<char>)>,
    pub body: Option<Seq<char>>,
}

impl View for WasmResponse {
    type V = WasmResponseView;

    open spec fn view(&self) -> WasmResponseView {
        WasmResponseView {
            status_code: self.status_code@,
            headers: self.headers.deep_view(),
            body: self.body.deep_view(),
        }
    }
}

impl WasmResponse {
    /// The decimal status line.
    pub fn status_code(&self) -> (r: String)
        ensures
            r@ == self@.status_code,
    {
        self.status_code.clone()
    }

    /// The body text.
    pub fn body(&self) -> (r: Option<String>)
        ensures
            r.deep_view() == self@.body,
    {
        match &self.body {
            Some(text) => Some(text.clone()),
            None => None,
        }
    }

    /// The header pairs.
    pub fn headers(&self) -> (r: Vec<(String, String)>)
        ensures
            r.deep_view() == self@.headers,
    {
        clone_string_pairs(&self.headers)
    }
}

/// All the chunks of the body stream, concatenated in order.
pub open spec fn flat(chunks: Seq<Seq<u8>>) -> Seq<u8>
    decreases chunks.len(),
{
    if chunks.len() == 0 {
        Seq::empty()
    } else {
        flat(chunks.drop_last()) + chunks.last()
    }
}

/// Whether some entry of the map carries the given name.
pub open spec fn has_name(s: Seq<(Seq<char>, Seq<char>)>, name: Seq<char>) -> bool {
    exists|j: int| 0 <= j < s.len() && (#[trigger] s[j]).0 == name
}

/// The map with every entry under the given name (the conversion keeps at
/// most one) set to the given value.
pub open spec fn set_name(
    s: Seq<(Seq<char>, Seq<char>)>,
    name: Seq<char>,
    value: Seq<char>,
) -> Seq<(Seq<char>, Seq<char>)> {
    s.map_values(
        |p: (Seq<char>, Seq<char>)|
            if p.0 == name {
                (p.0, value)
            } else {
                p
            },
    )
}

/// The header map that survives the conversion: one entry per name, in
/// order of first appearance.  A pair whose value bytes decode as UTF-8
/// text inserts or overwrites the entry under its name, so of several
/// values given under one name the last decodable one wins; a pair whose
/// value does not decode is skipped, and a name none of whose values
/// decode is absent.
pub open spec fn kept_headers(hs: Seq<(Seq<char>, Seq<u8>)>) -> Seq<(Seq<char>, Seq<char>)>
    decreases hs.len(),
{
    if hs.len() == 0 {
        Seq::empty()
    } else {
        let rest = kept_headers(hs.drop_last());
        let last = hs.last();
        if !valid_utf8(last.1) {
            rest
        } else if has_name(rest, last.0) {
            set_name(rest, last.0, decode_utf8(last.1))
        } else {
            rest.push((last.0, decode_utf8(last.1)))
        }
    }
}

/// The index of the last pair under the given name whose value decodes as
/// UTF-8 text, or -1 when there is no such pair.
pub open spec fn last_decodable_index(hs: Seq<(Seq<char>, Seq<u8>)>, name: Seq<char>) -> int
    decreases hs.len(),
{
    if hs.len() == 0 {
        -1
    } else if hs.last().0 == name && valid_utf8(hs.last().1) {
        hs.len() - 1
    } else {
        last_decodable_index(hs.drop_last(), name)
    }
}

/// The body bytes as text: present exactly when they are valid UTF-8.
pub open spec fn body_text(bytes: Seq<u8>) -> Option<Seq<char>> {
    if valid_utf8(bytes) {
        Some(decode_utf8(bytes))
    } else {
        None
    }
}

/// What converting a framework response yields: failure exactly when the
/// concatenated body bytes are not valid UTF-8 text; otherwise the decimal
/// status line, the decodable headers, and the body text, always present —
/// an empty body becomes present empty text, never an absent value.
pub open spec fn response_conversion(r: AxumResponseView) -> Result<WasmResponseView, AdapterError> {
    match body_text(flat(r.chunks)) {
        Some(t) => Ok(
            WasmResponseView {
                status_code: dec_rep(r.status as nat),
                headers: kept_headers(r.headers),
                body: Some(t),
            },
        ),
        None => Err(AdapterError::InvalidBodyEncoding),
    }
}

/// The conversion result as mathematical values.
pub open spec fn result_response_view(r: Result<WasmResponse, AdapterError>) -> Result<
    WasmResponseView,
    AdapterError,
> {
    match r {
        Ok(w) => Ok(w@),
        Err(e) => Err(e),
    }
}

/// Finds the entry carrying the given name among the collected headers.
fn find_name_exec(headers: &Vec<(String, String)>, name: &str) -> (r: Option<usize>)
    ensures
        r matches Some(k) ==> k < headers.len() && headers.deep_view()[k as int].0 == name@,
        r is None ==> !has_name(headers.deep_view(), name@),
{
    let mut j: usize = 0;
    while j < headers.len()
        invariant
            j <= headers.len(),
            forall|t: int| 0 <= t < j ==> (#[trigger] headers.deep_view()[t]).0 != name@,
        decreases headers.len() - j,
    {
        if str_eq(headers[j].0.as_str(), name) {
            return Some(j);
        }
        j = j + 1;
    }
    None
}

/// Converts a drained framework response into the browser-side record.  The
/// status becomes its decimal digits; the headers collapse to a map with one
/// entry per name, the last value that is UTF-8 text winning, while a value
/// that is not UTF-8 text is silently dropped; the body chunks are
/// concatenated and decoded, and only a body that is not valid UTF-8 makes
/// the whole conversion fail.
pub fn axum_response_to_wasm_response(response: &AxumResponse) -> (result: Result<
    WasmResponse,
    AdapterError,
>)
    ensures
        result_response_view(result) == response_conversion(response@),
{
    let status_code = u16_to_decimal(response.status);
    let mut headers: Vec<(String, String)> = Vec::new();
    let hn = response.headers.len();
    let mut i: usize = 0;
    while i < hn
        invariant
            status_code@ == dec_rep(response@.status as nat),
            hn == response.headers.len(),
            i <= hn,
            headers.deep_view() == kept_headers(response@.headers.take(i as int)),
        decreases hn - i,
    {
        let pair = &response.headers[i];
        proof {
            assert(response@.headers.take(i + 1).drop_last() =~= response@.headers.take(i as int));
            assert(response@.headers.take(i + 1).last() == (pair.0@, pair.1@));
        }
        let ghost before = headers.deep_view();
        match utf8_to_string(&pair.1) {
            Some(text) => {
                match find_name_exec(&headers, pair.0.as_str()) {
                    Some(k) => {
                        proof {
                            lemma_header_collapse_policy(response@.headers.take(i as int));
                            assert(has_name(before, pair.0@));
                        }
                        headers.set(k, (pair.0.clone(), text));
                        proof {
                            assert forall|t: int| 0 <= t < before.len() implies headers.deep_view()[t]
                                == set_name(before, pair.0@, decode_utf8(pair.1@))[t] by {
                                if t != k {
                                    assert(before[t].0 != before[k as int].0);
                                }
                            }
                            assert(headers.deep_view() =~= set_name(
                                before,
                                pair.0@,
                                decode_utf8(pair.1@),
                            ));
                            assert(headers.deep_view() =~= kept_headers(
                                response@.headers.take(i + 1),
                            ));
                        }
                    },
                    None => {
                        headers.push((pair.0.clone(), text));
                        proof {
                            assert(headers.deep_view() =~= before.push(
                                (pair.0@, decode_utf8(pair.1@)),
                            ));
                            assert(headers.deep_view() =~= kept_headers(
                                response@.headers.take(i + 1),
                            ));
                        }
                    },
                }
            },
            None => {
                proof {
                    assert(headers.deep_view() =~= kept_headers(
                        response@.headers.take(i + 1),
                    ));
                }
            },
        }
        i = i + 1;
    }
    proof {
        assert(response@.headers.take(hn as int) =~= response@.headers);
    }
    let mut bytes: Vec<u8> = Vec::new();
    let cn = response.body_chunks.len();
    let mut c: usize = 0;
    while c < cn
        invariant
            cn == response.body_chunks.len(),
            c <= cn,
            bytes@ == flat(response@.chunks.take(c as int)),
        decreases cn - c,
    {
        let chunk = &response.body_chunks[c];
        let bn = chunk.len();
        let mut b: usize = 0;
        while b < bn
            invariant
                cn == response.body_chunks.len(),
                c < cn,
                bn == chunk.len(),
                chunk == &response.body_chunks[c as int],
                b <= bn,
                bytes@ == flat(response@.chunks.take(c as int)) + chunk@.take(b as int),
            decreases bn - b,
        {
            bytes.push(chunk[b]);
            proof {
                assert(chunk@.take(b + 1) =~= chunk@.take(b as int).push(chunk@[b as int]));
                assert(bytes@ =~= flat(response@.chunks.take(c as int)) + chunk@.take(b + 1));
            }
            b = b + 1;
        }
        proof {
            assert(response@.chunks.take(c + 1).drop_last() =~= response@.chunks.take(c as int));
            assert(response@.chunks.take(c + 1).last() == chunk@);
            assert(chunk@.take(bn as int) =~= chunk@);
            assert(bytes@ =~= flat(response@.chunks.take(c + 1)));
        }
        c = c + 1;
    }
    proof {
        assert(response@.chunks.take(cn as int) =~= response@.chunks);
    }
    match utf8_to_string(&bytes) {
        Some(text) => Ok(WasmResponse { status_code, headers, body: Some(text) }),
        None => Err(AdapterError::InvalidBodyEncoding),
    }
}

/// Law: a response whose body stream yields no chunk converts successfully,
/// and its body is the present, empty text — never an absent value.
pub proof fn lemma_empty_stream_gives_empty_body(r: AxumResponseView)
    requires
        r.chunks.len() == 0,
    ensures
        response_conversion(r) matches Ok(w) && w.body == Some(Seq::<char>::empty()),
{
    assert(flat(r.chunks) =~= Seq::<u8>::empty());
    assert(valid_utf8(Seq::<u8>::empty()));
    assert(decode_utf8(Seq::<u8>::empty()) =~= Seq::<char>::empty());
}

/// Law: a successful response conversion always carries a present body —
/// empty text rather than an absent value — unlike the request side, where
/// the body may be absent.
pub proof fn lemma_response_body_always_present(r: AxumResponseView)
    ensures
        response_conversion(r) matches Ok(w) ==> w.body is Some,
{
}

/// Law: whether the response conversion succeeds depends on the body chunks
/// alone; no header, however malformed its value, can make it fail.
pub proof fn lemma_response_success_ignores_headers(r1: AxumResponseView, r2: AxumResponseView)
    requires
        r1.chunks == r2.chunks,
    ensures
        (response_conversion(r1) is Ok) == (response_conversion(r2) is Ok),
{
}

/// What [`last_decodable_index`] finds: when it is non-negative it points
/// at a pair under the name with a decodable value, and no later pair
/// matches; every pair after it (all of them, when it is -1) either carries
/// another name or a value that does not decode.
pub proof fn lemma_last_decodable_index(hs: Seq<(Seq<char>, Seq<u8>)>, name: Seq<char>)
    ensures
        last_decodable_index(hs, name) >= -1,
        last_decodable_index(hs, name) >= 0 ==> last_decodable_index(hs, name) < hs.len()
            && hs[last_decodable_index(hs, name)].0 == name && valid_utf8(
            hs[last_decodable_index(hs, name)].1,
        ),
        forall|i: int|
            last_decodable_index(hs, name) < i < hs.len() ==> !((#[trigger] hs[i]).0 == name
                && valid_utf8(hs[i].1)),
    decreases hs.len(),
{
    if hs.len() == 0 {
    } else {
        let prefix = hs.drop_last();
        lemma_last_decodable_index(prefix, name);
        assert forall|i: int|
            last_decodable_index(hs, name) < i < hs.len() implies !((#[trigger] hs[i]).0 == name
            && valid_utf8(hs[i].1)) by {
            if i < hs.len() - 1 {
                assert(hs[i] == prefix[i]);
            }
        }
        if last_decodable_index(hs, name) >= 0 && !(hs.last().0 == name && valid_utf8(
            hs.last().1,
        )) {
            assert(hs[last_decodable_index(prefix, name)] == prefix[last_decodable_index(
                prefix,
                name,
            )]);
        }
    }
}

/// Law: the surviving header map holds at most one entry per name; each
/// entry carries the decoding of the last decodable value given under its
/// name; and every name given at least one decodable value is present —
/// so a name is absent exactly when all of its values fail to decode.
pub proof fn lemma_header_collapse_policy(hs: Seq<(Seq<char>, Seq<u8>)>)
    ensures
        forall|j: int, k: int|
            0 <= j < k < kept_headers(hs).len() ==> (#[trigger] kept_headers(hs)[j]).0 != (
            #[trigger] kept_headers(hs)[k]).0,
        forall|j: int|
            0 <= j < kept_headers(hs).len() ==> last_decodable_index(
                hs,
                (#[trigger] kept_headers(hs)[j]).0,
            ) >= 0 && kept_headers(hs)[j].1 == decode_utf8(
                hs[last_decodable_index(hs, kept_headers(hs)[j].0)].1,
            ),
        forall|i: int|
            0 <= i < hs.len() && valid_utf8((#[trigger] hs[i]).1) ==> has_name(
                kept_headers(hs),
                hs[i].0,
            ),
    decreases hs.len(),
{
    if hs.len() == 0 {
        assert(kept_headers(hs).len() == 0);
    } else {
        let prefix = hs.drop_last();
        let rest = kept_headers(prefix);
        let kept = kept_headers(hs);
        let last = hs.last();
        lemma_header_collapse_policy(prefix);
        assert(hs[hs.len() - 1] == last);
        assert forall|j: int, k: int| 0 <= j < k < kept.len() implies kept[j].0 != kept[k].0 by {
            if !valid_utf8(last.1) || has_name(rest, last.0) {
                assert(kept[j].0 == rest[j].0 && kept[k].0 == rest[k].0);
            } else {
                if k < rest.len() {
                    assert(kept[j] == rest[j] && kept[k] == rest[k]);
                } else {
                    assert(kept[k].0 == last.0 && kept[j] == rest[j]);
                    if rest[j].0 == last.0 {
                        assert(has_name(rest, last.0));
                    }
                }
            }
        }
        assert forall|j: int| 0 <= j < kept.len() implies last_decodable_index(hs, kept[j].0) >= 0
            && kept[j].1 == decode_utf8(hs[last_decodable_index(hs, kept[j].0)].1) by {
            if !valid_utf8(last.1) {
                assert(kept[j] == rest[j]);
                assert(last_decodable_index(hs, kept[j].0) == last_decodable_index(
                    prefix,
                    kept[j].0,
                ));
                lemma_last_decodable_index(prefix, kept[j].0);
                assert(hs[last_decodable_index(prefix, kept[j].0)] == prefix[last_decodable_index(
                    prefix,
                    kept[j].0,
                )]);
            } else if has_name(rest, last.0) {
                assert(kept[j].0 == rest[j].0);
                if rest[j].0 == last.0 {
                    assert(kept[j].1 == decode_utf8(last.1));
                    assert(last_decodable_index(hs, last.0) == hs.len() - 1);
                } else {
                    assert(kept[j] == rest[j]);
                    assert(last_decodable_index(hs, rest[j].0) == last_decodable_index(
                        prefix,
                        rest[j].0,
                    ));
                    lemma_last_decodable_index(prefix, rest[j].0);
                    assert(hs[last_decodable_index(prefix, rest[j].0)] == prefix[
                        last_decodable_index(prefix, rest[j].0)]);
                }
            } else {
                if j < rest.len() {
                    assert(kept[j] == rest[j]);
                    if rest[j].0 == last.0 {
                        assert(has_name(rest, last.0));
                    }
                    assert(last_decodable_index(hs, rest[j].0) == last_decodable_index(
                        prefix,
                        rest[j].0,
                    ));
                    lemma_last_decodable_index(prefix, rest[j].0);
                    assert(hs[last_decodable_index(prefix, rest[j].0)] == prefix[
                        last_decodable_index(prefix, rest[j].0)]);
                } else {
                    assert(kept[j] == (last.0, decode_utf8(last.1)));
                    assert(last_decodable_index(hs, last.0) == hs.len() - 1);
                }
            }
        }
        assert forall|i: int|
            0 <= i < hs.len() && valid_utf8((#[trigger] hs[i]).1) implies has_name(
            kept,
            hs[i].0,
        ) by {
            if i == hs.len() - 1 {
                if has_name(rest, last.0) {
                    let j = choose|j: int| 0 <= j < rest.len() && (#[trigger] rest[j]).0 == last.0;
                    assert(kept[j].0 == last.0);
                } else {
                    assert(kept[rest.len() as int].0 == last.0);
                }
            } else {
                assert(hs[i] == prefix[i]);
                assert(has_name(rest, prefix[i].0));
                let j = choose|j: int|
                    0 <= j < rest.len() && (#[trigger] rest[j]).0 == prefix[i].0;
                assert(kept[j].0 == rest[j].0);
            }
        }
    }
}

/// Law: the response conversion is a function of the drained response alone,
/// so running it twice on the same input yields structurally identical
/// results.
pub proof fn lemma_response_conversion_idempotent(
    r: AxumResponseView,
    out1: Result<WasmResponseView, AdapterError>,
    out2: Result<WasmResponseView, AdapterError>,
)
    requires
        out1 == response_conversion(r),
        out2 == response_conversion(r),
    ensures
        out1 == out2,
{
}

} // verus!
