//! Stateless diagnostic endpoint: echoes the request's role, ids, URI, and
//! parameters, the latter partitioned into inbound HTTP headers (keys that
//! carry the `http_` prefix case-insensitively, prefix stripped) and
//! everything else, each as an ordered map.

use vstd::prelude::*;
use vstd::string::StrSliceExecFns;
use vstd::string::StringExecFns;

use crate::config::ServerType;
use crate::connection::FastCGIConnectionID;
use crate::handlers::utils::{build_json_response, spec_json_body_response};
use crate::json::{append_json_number, append_json_string, append_json_string_object, spec_json_string, spec_json_string_object};
use crate::request::{FastCGIRequest, FastCGIRequestModel};
use crate::response::{HttpResponse, HttpResponseModel};
use crate::text::{
    insert_pair,
    lemma_insert_pair_sorted,
    lemma_sorted_pairs_keys_unique,
    spec_decimal,
    spec_insert_pair,
    spec_pairs_sorted,
};

verus! {

/// Whether a parameter key carries the inbound HTTP header prefix,
/// compared case-insensitively.
pub open spec fn spec_is_http_param(key: Seq<char>) -> bool {
    &&& key.len() >= 5
    &&& (key[0] == 'h' || key[0] == 'H')
    &&& (key[1] == 't' || key[1] == 'T')
    &&& (key[2] == 't' || key[2] == 'T')
    &&& (key[3] == 'p' || key[3] == 'P')
    &&& key[4] == '_'
}

/// Splits the parameters into two ordered maps: HTTP header parameters
/// with the prefix stripped, and all the others. A later parameter with
/// an equal key replaces the earlier one.
pub open spec fn spec_partition_params(params: Seq<(Seq<char>, Seq<char>)>) -> (
    Seq<(Seq<char>, Seq<char>)>,
    Seq<(Seq<char>, Seq<char>)>,
)
    decreases params.len(),
{
    if params.len() == 0 {
        (Seq::empty(), Seq::empty())
    } else {
        let prev = spec_partition_params(params.drop_last());
        let p = params.last();
        if spec_is_http_param(p.0) {
            (spec_insert_pair(prev.0, p.0.skip(5), p.1), prev.1)
        } else {
            (prev.0, spec_insert_pair(prev.1, p.0, p.1))
        }
    }
}

/// The JSON object for a connection id.
pub open spec fn spec_connection_id_json(c: FastCGIConnectionID) -> Seq<char> {
    "{\"id\":"@ + spec_decimal(c.id as int) + ",\"server_type\":"@ + (match c.server_type {
        ServerType::TCP => "\"TCP\""@,
        ServerType::UNIX => "\"UNIX\""@,
    }) + "}"@
}

/// The diagnostic payload for one request.
pub open spec fn spec_request_info_json(m: FastCGIRequestModel) -> Seq<char> {
    let maps = spec_partition_params(m.params);
    "{\"fastcgi_role\":"@ + spec_json_string(m.role) + ",\"fastcgi_connection_id\":"@
        + spec_connection_id_json(m.connection_id) + ",\"fastcgi_request_id\":"@ + spec_decimal(
        m.request_id as int,
    ) + ",\"request_uri\":"@ + spec_json_string(
        match m.request_uri {
            Some(u) => u,
            None => "[Unknown URI]"@,
        },
    ) + ",\"http_headers\":"@ + spec_json_string_object(maps.0) + ",\"other_params\":"@
        + spec_json_string_object(maps.1) + "}"@
}

/// The 200 response wrapping [`spec_request_info_json`].
pub open spec fn spec_request_info_response(m: FastCGIRequestModel) -> HttpResponseModel {
    spec_json_body_response(spec_request_info_json(m))
}

/// Decides [`spec_is_http_param`].
fn is_http_param(key: &str) -> (r: bool)
    ensures
        r == spec_is_http_param(key@),
{
    if key.unicode_len() < 5 {
        return false;
    }
    let c0 = key.get_char(0);
    let c1 = key.get_char(1);
    let c2 = key.get_char(2);
    let c3 = key.get_char(3);
    let c4 = key.get_char(4);
    (c0 == 'h' || c0 == 'H') && (c1 == 't' || c1 == 'T') && (c2 == 't' || c2 == 'T') && (c3 == 'p'
        || c3 == 'P') && c4 == '_'
}

/// Echoes request metadata; it never fails and has no side effects.
#[derive(Debug)]
pub struct RequestInfoHandler {}

impl RequestInfoHandler {
    pub fn new() -> (h: Self) {
        Self {}
    }

    pub fn handle(&self, request: FastCGIRequest) -> (r: HttpResponse)
        ensures
            r@ == spec_request_info_response(request@),
    {
        let params = request.params();
        let mut http_headers: Vec<(String, String)> = Vec::new();
        let mut other_params: Vec<(String, String)> = Vec::new();
        let n = params.len();
        let mut i: usize = 0;
        while i < n
            invariant
                0 <= i <= n,
                n == params@.len(),
                params.deep_view() == request@.params,
                params.deep_view().len() == n,
                forall|j: int|
                    0 <= j < n ==> #[trigger] params.deep_view()[j] == (
                    params@[j].0@,
                    params@[j].1@,
                    ),
                (http_headers.deep_view(), other_params.deep_view()) == spec_partition_params(
                    params.deep_view().subrange(0, i as int),
                ),
            decreases n - i,
        {
            let ghost dv = params.deep_view();
            proof {
                assert(dv.subrange(0, i + 1 as int).drop_last() =~= dv.subrange(0, i as int));
                assert(dv.subrange(0, i + 1 as int).last() == dv[i as int]);
            }
            let key = &params[i].0;
            let value = params[i].1.clone();
            if is_http_param(key.as_str()) {
                let len = key.as_str().unicode_len();
                let stripped = key.as_str().substring_char(5, len).to_owned();
                proof {
                    assert(stripped@ =~= dv[i as int].0.skip(5));
                }
                insert_pair(&mut http_headers, stripped, value);
            } else {
                insert_pair(&mut other_params, key.clone(), value);
            }
            i = i + 1;
        }
        proof {
            assert(params.deep_view().subrange(0, n as int) =~= params.deep_view());
        }
        let mut json = String::new();
        json.append("{\"fastcgi_role\":");
        append_json_string(&mut json, request.role().as_str());
        json.append(",\"fastcgi_connection_id\":");
        let connection_id = request.connection_id();
        json.append("{\"id\":");
        append_json_number(&mut json, connection_id.id as u128);
        json.append(",\"server_type\":");
        match connection_id.server_type {
            ServerType::TCP => json.append("\"TCP\""),
            ServerType::UNIX => json.append("\"UNIX\""),
        }
        json.append("}");
        proof {
            assert(json@ =~= "{\"fastcgi_role\":"@ + spec_json_string(request@.role)
                + ",\"fastcgi_connection_id\":"@ + spec_connection_id_json(
                request@.connection_id,
            ));
        }
        json.append(",\"fastcgi_request_id\":");
        append_json_number(&mut json, request.request_id().0 as u128);
        json.append(",\"request_uri\":");
        match request.request_uri() {
            Some(uri) => append_json_string(&mut json, uri.as_str()),
            None => append_json_string(&mut json, "[Unknown URI]"),
        }
        json.append(",\"http_headers\":");
        append_json_string_object(&mut json, &http_headers);
        json.append(",\"other_params\":");
        append_json_string_object(&mut json, &other_params);
        json.append("}");
        proof {
            assert(json@ =~= spec_request_info_json(request@));
        }
        build_json_response(json)
    }
}

/// The diagnostic route this module registers.
pub fn create_routes() -> (r: Vec<(String, crate::handlers::RequestHandler)>)
    ensures
        r@.len() == 1,
        r@[0].0@ == "request_info"@,
        r@[0].1 is RequestInfo,
{
    let mut routes: Vec<(String, crate::handlers::RequestHandler)> = Vec::new();
    routes.push((
        "request_info".to_owned(),
        crate::handlers::RequestHandler::RequestInfo(RequestInfoHandler::new()),
    ));
    routes
}

/// Both parameter maps are ordered: whatever the parameters were, the
/// partition yields association lists sorted strictly by key, so each key
/// occurs once and the payload's member order is the key order.
pub proof fn lemma_partition_params_ordered(params: Seq<(Seq<char>, Seq<char>)>)
    ensures
        spec_pairs_sorted(spec_partition_params(params).0),
        spec_pairs_sorted(spec_partition_params(params).1),
        forall|i: int, j: int|
            0 <= i < j < spec_partition_params(params).0.len() ==> (
            #[trigger] spec_partition_params(params).0[i]).0 != (
            #[trigger] spec_partition_params(params).0[j]).0,
        forall|i: int, j: int|
            0 <= i < j < spec_partition_params(params).1.len() ==> (
            #[trigger] spec_partition_params(params).1[i]).0 != (
            #[trigger] spec_partition_params(params).1[j]).0,
    decreases params.len(),
{
    if params.len() > 0 {
        lemma_partition_params_ordered(params.drop_last());
        let prev = spec_partition_params(params.drop_last());
        let p = params.last();
        if spec_is_http_param(p.0) {
            lemma_insert_pair_sorted(prev.0, p.0.skip(5), p.1);
        } else {
            lemma_insert_pair_sorted(prev.1, p.0, p.1);
        }
    }
    lemma_sorted_pairs_keys_unique(spec_partition_params(params).0);
    lemma_sorted_pairs_keys_unique(spec_partition_params(params).1);
}

} // verus!
