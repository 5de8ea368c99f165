//! HTTP-shaped responses and their wire encoding.
//!
//! A response is a status code, a list of header lines, and an optional
//! text body. On the wire it becomes `"Status: <code> <reason>\n"`, one
//! `"<header>: <value>\n"` line per header, a blank line, and the raw body
//! bytes.

use vstd::prelude::*;
use vstd::string::StrSliceExecFns;
use vstd::string::StringExecFns;
use vstd::utf8::encode_utf8;

use std::sync::Arc;

use crate::text::spec_decimal;

verus! {

pub const STATUS_OK: u16 = 200;

pub const STATUS_BAD_REQUEST: u16 = 400;

pub const STATUS_NOT_FOUND: u16 = 404;

pub const STATUS_TOO_MANY_REQUESTS: u16 = 429;

pub const STATUS_INTERNAL_SERVER_ERROR: u16 = 500;

/// The canonical reason phrase for a status code, if the code has one.
pub uninterp spec fn reason_of(code: u16) -> Option<Seq<char>>;

/// Relies on `http::StatusCode::from_u16` and
/// `http::StatusCode::canonical_reason`: the reason phrase is a fixed
/// table keyed by the numeric code alone, and codes outside 100..=999
/// have no entry.
#[verifier::external_body]
fn canonical_reason_string(code: u16) -> (r: Option<String>)
    ensures
        r matches Some(s) ==> reason_of(code) == Some(s@),
        r is None ==> reason_of(code) is None,
{
    match http::StatusCode::from_u16(code) {
        Ok(status) => status.canonical_reason().map(|reason| reason.to_owned()),
        Err(_) => None,
    }
}

/// Response body text: either shared (a precomputed payload served
/// verbatim to every caller) or owned by this one response.
#[derive(Debug)]
pub enum HttpResponseBody {
    ArcString(Arc<String>),
    String(String),
}

impl View for HttpResponseBody {
    type V = Seq<char>;

    open spec fn view(&self) -> Seq<char> {
        match self {
            HttpResponseBody::ArcString(s) => s@,
            HttpResponseBody::String(s) => s@,
        }
    }
}

/// Relies on `Arc`'s `Deref` to the inner `String`: dereferencing a shared
/// pointer yields the pointed-to string unchanged.
#[verifier::external_body]
fn arc_str(s: &Arc<String>) -> (r: &str)
    ensures
        r@ == s@,
{
    s.as_str()
}

/// Relies on `Arc::clone`: the clone is a new handle to the same string.
#[verifier::external_body]
pub(crate) fn arc_clone_string(s: &Arc<String>) -> (r: Arc<String>)
    ensures
        r@ == s@,
{
    Arc::clone(s)
}

impl HttpResponseBody {
    /// The UTF-8 bytes of the body text.
    pub fn as_bytes(&self) -> (r: &[u8])
        ensures
            r@ == encode_utf8(self@),
    {
        match self {
            HttpResponseBody::ArcString(s) => arc_str(s).as_bytes(),
            HttpResponseBody::String(s) => s.as_str().as_bytes(),
        }
    }
}

impl From<Arc<String>> for HttpResponseBody {
    fn from(s: Arc<String>) -> (r: HttpResponseBody) {
        HttpResponseBody::ArcString(s)
    }
}

impl vstd::std_specs::convert::FromSpecImpl<Arc<String>> for HttpResponseBody {
    open spec fn obeys_from_spec() -> bool {
        true
    }

    open spec fn from_spec(s: Arc<String>) -> Self {
        HttpResponseBody::ArcString(s)
    }
}

impl From<String> for HttpResponseBody {
    fn from(s: String) -> (r: HttpResponseBody) {
        HttpResponseBody::String(s)
    }
}

impl vstd::std_specs::convert::FromSpecImpl<String> for HttpResponseBody {
    open spec fn obeys_from_spec() -> bool {
        true
    }

    open spec fn from_spec(s: String) -> Self {
        HttpResponseBody::String(s)
    }
}

/// Mathematical model of [`HttpResponse`].
pub ghost struct HttpResponseModel {
    pub status: u16,
    pub headers: Seq<(Seq<char>, Seq<char>)>,
    pub body: Option<Seq<char>>,
}

/// A response produced by one handler and consumed once by the encoder.
#[derive(Debug)]
pub struct HttpResponse {
    pub(crate) status: u16,
    pub(crate) headers: Vec<(String, String)>,
    pub(crate) body: Option<HttpResponseBody>,
}

impl View for HttpResponse {
    type V = HttpResponseModel;

    closed spec fn view(&self) -> HttpResponseModel {
        HttpResponseModel {
            status: self.status,
            headers: self.headers.deep_view(),
            body: match self.body {
                Some(ref b) => Some(b@),
                None => None,
            },
        }
    }
}

/// The `"Status: <code> <reason>\n"` line, with `[Unknown]` for a code
/// that has no canonical reason phrase.
pub open spec fn spec_status_line(status: u16) -> Seq<char> {
    "Status: "@ + spec_decimal(status as int) + " "@ + (match reason_of(status) {
        Some(reason) => reason,
        None => "[Unknown]"@,
    }) + "\n"@
}

/// One `"<header>: <value>\n"` line per header, in list order.
pub open spec fn spec_header_lines(headers: Seq<(Seq<char>, Seq<char>)>) -> Seq<char>
    decreases headers.len(),
{
    if headers.len() == 0 {
        Seq::empty()
    } else {
        spec_header_lines(headers.drop_last()) + headers.last().0 + ": "@ + headers.last().1
            + "\n"@
    }
}

/// Everything before the body bytes: status line, header lines, blank line.
pub open spec fn spec_header_string(m: HttpResponseModel) -> Seq<char> {
    spec_status_line(m.status) + spec_header_lines(m.headers) + "\n"@
}

/// The full wire form: the encoded header text followed by the raw body
/// bytes, if any.
pub open spec fn spec_wire_bytes(m: HttpResponseModel) -> Seq<u8> {
    encode_utf8(spec_header_string(m)) + (match m.body {
        Some(body) => encode_utf8(body),
        None => Seq::empty(),
    })
}

impl HttpResponse {
    pub fn new(status: u16, headers: Vec<(String, String)>, body: Option<HttpResponseBody>) -> (r:
        HttpResponse)
        ensures
            r@ == (HttpResponseModel {
                status,
                headers: headers.deep_view(),
                body: match body {
                    Some(b) => Some(b@),
                    None => None,
                },
            }),
    {
        HttpResponse { status, headers, body }
    }

    pub fn status(&self) -> (r: u16)
        ensures
            r == self@.status,
    {
        self.status
    }

    pub fn headers(&self) -> (r: &Vec<(String, String)>)
        ensures
            r.deep_view() == self@.headers,
    {
        &self.headers
    }

    pub fn body(&self) -> (r: &Option<HttpResponseBody>)
        ensures
            r matches Some(b) ==> self@.body == Some(b@),
            r is None ==> self@.body is None,
    {
        &self.body
    }

    /// Renders the status line, the header lines, and the blank line that
    /// separates them from the body.
    pub fn build_header_string(&self) -> (r: String)
        ensures
            r@ == spec_header_string(self@),
    {
        let mut out = String::new();
        out.append("Status: ");
        let digits = crate::text::decimal_string(self.status as u128);
        out.append(digits.as_str());
        out.append(" ");
        match canonical_reason_string(self.status) {
            Some(reason) => out.append(reason.as_str()),
            None => out.append("[Unknown]"),
        }
        out.append("\n");
        proof {
            assert(out@ =~= spec_status_line(self@.status));
        }
        let n = self.headers.len();
        let mut i: usize = 0;
        while i < n
            invariant
                0 <= i <= n,
                n == self.headers@.len(),
                self.headers.deep_view().len() == n,
                forall|j: int|
                    0 <= j < n ==> #[trigger] self.headers.deep_view()[j] == (
                    self.headers@[j].0@,
                    self.headers@[j].1@,
                    ),
                out@ == spec_status_line(self@.status) + spec_header_lines(
                    self.headers.deep_view().subrange(0, i as int),
                ),
            decreases n - i,
        {
            out.append(self.headers[i].0.as_str());
            out.append(": ");
            out.append(self.headers[i].1.as_str());
            out.append("\n");
            proof {
                let dv = self.headers.deep_view();
                assert(dv.subrange(0, i + 1 as int).drop_last() =~= dv.subrange(0, i as int));
                assert(dv.subrange(0, i + 1 as int).last() == dv[i as int]);
                assert(out@ =~= spec_status_line(self@.status) + spec_header_lines(
                    dv.subrange(0, i + 1 as int),
                ));
            }
            i = i + 1;
        }
        out.append("\n");
        proof {
            assert(self.headers.deep_view().subrange(0, n as int) =~= self.headers.deep_view());
            assert(out@ =~= spec_header_string(self@));
        }
        out
    }

    /// Assembles the bytes written to the transport for this response.
    pub fn wire_bytes(&self) -> (r: Vec<u8>)
        ensures
            r@ == spec_wire_bytes(self@),
    {
        let header_string = self.build_header_string();
        let mut bytes: Vec<u8> = header_string.as_str().as_bytes_vec();
        match &self.body {
            None => {},
            Some(body) => {
                let body_bytes = body.as_bytes();
                let m = body_bytes.len();
                let mut i: usize = 0;
                while i < m
                    invariant
                        0 <= i <= m,
                        m == body_bytes@.len(),
                        bytes@ == encode_utf8(spec_header_string(self@)) + body_bytes@.subrange(
                            0,
                            i as int,
                        ),
                    decreases m - i,
                {
                    bytes.push(body_bytes[i]);
                    proof {
                        assert(body_bytes@.subrange(0, i + 1 as int) =~= body_bytes@.subrange(
                            0,
                            i as int,
                        ).push(body_bytes@[i as int]));
                    }
                    i = i + 1;
                }
                proof {
                    assert(body_bytes@.subrange(0, m as int) =~= body_bytes@);
                }
            },
        }
        proof {
            assert(bytes@ =~= spec_wire_bytes(self@));
        }
        bytes
    }
}

} // verus!
