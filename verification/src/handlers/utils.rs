//! Response builders shared by the handlers.

use vstd::prelude::*;

use crate::response::{HttpResponse, HttpResponseBody, HttpResponseModel, STATUS_OK};

verus! {

/// The response model of a JSON payload served with status 200.
pub open spec fn spec_json_body_response(body: Seq<char>) -> HttpResponseModel {
    HttpResponseModel {
        status: STATUS_OK,
        headers: seq![("content-type"@, "application/json"@)],
        body: Some(body),
    }
}

/// The response model of a bare status code with no body.
pub open spec fn spec_status_code_response(status: u16) -> HttpResponseModel {
    HttpResponseModel { status, headers: Seq::empty(), body: None }
}

/// Wraps an already-encoded JSON payload in a 200 response with the JSON
/// content type.
pub fn build_json_body_response(http_response_body: HttpResponseBody) -> (r: HttpResponse)
    ensures
        r@ == spec_json_body_response(http_response_body@),
{
    let mut headers: Vec<(String, String)> = Vec::new();
    headers.push(("content-type".to_owned(), "application/json".to_owned()));
    proof {
        assert(headers.deep_view() =~= seq![("content-type"@, "application/json"@)]);
    }
    HttpResponse::new(STATUS_OK, headers, Some(http_response_body))
}

/// Wraps freshly rendered JSON text in a 200 response.
pub fn build_json_response(json: String) -> (r: HttpResponse)
    ensures
        r@ == spec_json_body_response(json@),
{
    build_json_body_response(HttpResponseBody::from(json))
}

/// A response that carries only a status code.
pub fn build_status_code_response(status_code: u16) -> (r: HttpResponse)
    ensures
        r@ == spec_status_code_response(status_code),
{
    let headers: Vec<(String, String)> = Vec::new();
    proof {
        assert(headers.deep_view() =~= Seq::<(Seq<char>, Seq<char>)>::empty());
    }
    HttpResponse::new(status_code, headers, None)
}

} // verus!
