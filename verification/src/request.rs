//! The per-request view handed to handlers: role, connection id,
//! connection-scoped request id, the optional request URI, and the ordered
//! parameter list with the URI pseudo-parameter removed.

use vstd::prelude::*;

use crate::connection::FastCGIConnectionID;

verus! {

/// Connection-scoped numeric id of one application request.
#[derive(Debug, Clone, Copy, PartialEq, Eq, Structural)]
pub struct FastCGIRequestID(pub u16);

/// Mathematical model of [`FastCGIRequest`].
pub ghost struct FastCGIRequestModel {
    pub role: Seq<char>,
    pub connection_id: FastCGIConnectionID,
    pub request_id: u16,
    pub request_uri: Option<Seq<char>>,
    pub params: Seq<(Seq<char>, Seq<char>)>,
}

/// The parameter list as stored: the `request_uri` pseudo-parameter is
/// dropped, and a parameter whose value was not valid text keeps its key
/// with a fixed placeholder value.
pub open spec fn spec_clean_params(raw: Seq<(Seq<char>, Option<Seq<char>>)>) -> Seq<
    (Seq<char>, Seq<char>),
>
    decreases raw.len(),
{
    if raw.len() == 0 {
        Seq::empty()
    } else {
        spec_clean_params(raw.drop_last()) + (if raw.last().0 == "request_uri"@ {
            Seq::empty()
        } else {
            seq![
                (
                    raw.last().0,
                    match raw.last().1 {
                        Some(v) => v,
                        None => "[Invalid UTF8]"@,
                    },
                ),
            ]
        })
    }
}

/// Ephemeral view of one application request.
#[derive(Debug)]
pub struct FastCGIRequest {
    role: String,
    connection_id: FastCGIConnectionID,
    request_id: FastCGIRequestID,
    request_uri: Option<String>,
    params: Vec<(String, String)>,
}

impl View for FastCGIRequest {
    type V = FastCGIRequestModel;

    closed spec fn view(&self) -> FastCGIRequestModel {
        FastCGIRequestModel {
            role: self.role@,
            connection_id: self.connection_id,
            request_id: self.request_id.0,
            request_uri: match self.request_uri {
                Some(ref u) => Some(u@),
                None => None,
            },
            params: self.params.deep_view(),
        }
    }
}

impl FastCGIRequest {
    /// Builds the request view from the values the transport delivered.
    /// A raw parameter value of `None` stands for bytes that were not
    /// valid text.
    pub fn new(
        connection_id: FastCGIConnectionID,
        role: String,
        request_id: FastCGIRequestID,
        request_uri: Option<String>,
        raw_params: Vec<(String, Option<String>)>,
    ) -> (r: FastCGIRequest)
        ensures
            r@ == (FastCGIRequestModel {
                role: role@,
                connection_id,
                request_id: request_id.0,
                request_uri: match request_uri {
                    Some(u) => Some(u@),
                    None => None,
                },
                params: spec_clean_params(raw_params.deep_view()),
            }),
    {
        let uri_key: String = "request_uri".to_owned();
        let invalid_value: String = "[Invalid UTF8]".to_owned();
        let mut params: Vec<(String, String)> = Vec::new();
        let n = raw_params.len();
        let mut i: usize = 0;
        while i < n
            invariant
                0 <= i <= n,
                n == raw_params@.len(),
                raw_params.deep_view().len() == n,
                uri_key@ == "request_uri"@,
                invalid_value@ == "[Invalid UTF8]"@,
                forall|j: int|
                    0 <= j < n ==> #[trigger] raw_params.deep_view()[j] == (
                    raw_params@[j].0@,
                    raw_params@[j].1.deep_view(),
                    ),
                params.deep_view() == spec_clean_params(
                    raw_params.deep_view().subrange(0, i as int),
                ),
            decreases n - i,
        {
            let ghost dv = raw_params.deep_view();
            proof {
                assert(dv.subrange(0, i + 1 as int).drop_last() =~= dv.subrange(0, i as int));
                assert(dv.subrange(0, i + 1 as int).last() == dv[i as int]);
            }
            if raw_params[i].0 == uri_key {
                proof {
                    assert(raw_params@[i as int].0@ == "request_uri"@);
                    assert(params.deep_view() =~= spec_clean_params(
                        dv.subrange(0, i + 1 as int),
                    ));
                }
            } else {
                let key = raw_params[i].0.clone();
                let value: String = match &raw_params[i].1 {
                    Some(v) => v.clone(),
                    None => invalid_value.clone(),
                };
                params.push((key, value));
                proof {
                    assert(params.deep_view() =~= spec_clean_params(
                        dv.subrange(0, i + 1 as int),
                    ));
                }
            }
            i = i + 1;
        }
        proof {
            assert(raw_params.deep_view().subrange(0, n as int) =~= raw_params.deep_view());
        }
        FastCGIRequest { role, connection_id, request_id, request_uri, params }
    }

    pub fn role(&self) -> (r: &String)
        ensures
            r@ == self@.role,
    {
        &self.role
    }

    pub fn connection_id(&self) -> (r: FastCGIConnectionID)
        ensures
            r == self@.connection_id,
    {
        self.connection_id
    }

    pub fn request_id(&self) -> (r: FastCGIRequestID)
        ensures
            r.0 == self@.request_id,
    {
        self.request_id
    }

    pub fn request_uri(&self) -> (r: &Option<String>)
        ensures
            r matches Some(u) ==> self@.request_uri == Some(u@),
            r is None ==> self@.request_uri is None,
    {
        &self.request_uri
    }

    pub fn params(&self) -> (r: &Vec<(String, String)>)
        ensures
            r.deep_view() == self@.params,
    {
        &self.params
    }
}

} // verus!
