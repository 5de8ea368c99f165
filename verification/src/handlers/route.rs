//! The router: an immutable exact-match table from URI to handler, built
//! once at startup. Construction prefixes every route with the configured
//! context and fails on any URI collision; matching is exact string
//! equality, never prefix or pattern matching.

use vstd::prelude::*;
use vstd::string::StrSliceExecFns;
use vstd::string::StringExecFns;

use crate::handlers::commands::{spec_all_commands_response, RunCommandHandler};
use crate::handlers::request_info::spec_request_info_response;
use crate::handlers::utils::{build_status_code_response, spec_status_code_response};
use crate::handlers::RequestHandler;
use crate::request::FastCGIRequest;
use crate::response::{HttpResponse, STATUS_BAD_REQUEST, STATUS_NOT_FOUND};

verus! {

/// A context prefix joined with a route's path suffix: a single `/` stands
/// between them unless the context is empty or already ends with one.
pub open spec fn spec_join_context(context: Seq<char>, suffix: Seq<char>) -> Seq<char> {
    if context.len() == 0 {
        suffix
    } else if context.last() == '/' {
        context + suffix
    } else {
        context + "/"@ + suffix
    }
}

/// The table that a route list builds under a context prefix.
pub open spec fn spec_joined_routes(context: Seq<char>, routes: Seq<(String, RequestHandler)>) -> Seq<
    (Seq<char>, RequestHandler),
> {
    routes.map(|i: int, p: (String, RequestHandler)| (spec_join_context(context, p.0@), p.1))
}

/// The URIs of a table, in table order.
pub open spec fn spec_route_uris(routes: Seq<(Seq<char>, RequestHandler)>) -> Seq<Seq<char>> {
    routes.map(|i: int, p: (Seq<char>, RequestHandler)| p.0)
}

/// No two URIs collide.
pub open spec fn spec_no_duplicates(uris: Seq<Seq<char>>) -> bool {
    forall|i: int, j: int| 0 <= i < j < uris.len() ==> uris[i] != uris[j]
}

/// Exact-match lookup: the handler of the first entry whose URI equals
/// `uri`, if any.
pub open spec fn spec_lookup(routes: Seq<(Seq<char>, RequestHandler)>, uri: Seq<char>) -> Option<
    RequestHandler,
>
    decreases routes.len(),
{
    if routes.len() == 0 {
        None
    } else if routes[0].0 == uri {
        Some(routes[0].1)
    } else {
        spec_lookup(routes.drop_first(), uri)
    }
}

proof fn lemma_lookup_skip(routes: Seq<(Seq<char>, RequestHandler)>, uri: Seq<char>, pos: int)
    requires
        0 <= pos <= routes.len(),
        forall|j: int| 0 <= j < pos ==> (#[trigger] routes[j]).0 != uri,
    ensures
        spec_lookup(routes, uri) == spec_lookup(routes.skip(pos), uri),
    decreases pos,
{
    if pos == 0 {
        assert(routes.skip(0) =~= routes);
    } else {
        lemma_lookup_skip(routes.drop_first(), uri, pos - 1);
        assert(routes.drop_first().skip(pos - 1) =~= routes.skip(pos));
    }
}

/// Why router construction failed: two routes shared this URI.
#[derive(Debug)]
pub enum RouterError {
    UriCollision(String),
}

impl View for RouterError {
    type V = Seq<char>;

    open spec fn view(&self) -> Seq<char> {
        match self {
            RouterError::UriCollision(uri) => uri@,
        }
    }
}

impl RouterError {
    /// A human-readable description of the failure.
    pub fn message(&self) -> (r: String)
        ensures
            r@ == "collision in router uri '"@ + self@ + "'"@,
    {
        match self {
            RouterError::UriCollision(uri) => {
                let mut out: String = "collision in router uri '".to_owned();
                out.append(uri.as_str());
                out.append("'");
                proof {
                    assert(out@ =~= "collision in router uri '"@ + self@ + "'"@);
                }
                out
            },
        }
    }
}

/// What the router decides for one request: either a finished response, or
/// the command whose execution the caller must now run under the admission
/// gate.
pub enum HandlerAction<'a> {
    Respond(HttpResponse),
    RunCommand(&'a RunCommandHandler),
}

/// Immutable URI-to-handler table.
pub struct Router {
    routes: Vec<(String, RequestHandler)>,
}

impl Router {
    /// The table as a sequence of (URI, handler) entries.
    pub closed spec fn spec_routes(&self) -> Seq<(Seq<char>, RequestHandler)> {
        self.routes@.map(|i: int, p: (String, RequestHandler)| (p.0@, p.1))
    }

    fn join_uri(context: &str, suffix: &String) -> (r: String)
        ensures
            r@ == spec_join_context(context@, suffix@),
    {
        let n = context.unicode_len();
        if n == 0 {
            return suffix.clone();
        }
        let mut out: String = context.to_owned();
        if context.get_char(n - 1) != '/' {
            out.append("/");
        }
        out.append(suffix.as_str());
        proof {
            reveal_strlit("/");
            assert(out@ =~= spec_join_context(context@, suffix@));
        }
        out
    }

    /// Builds the table, joining every suffix with the context. Succeeds
    /// exactly when the joined URIs are all distinct; otherwise nothing is
    /// built and the error names a URI that two routes share.
    #[verifier::loop_isolation(false)]
    pub fn new(context: &str, routes: Vec<(String, RequestHandler)>) -> (r: Result<
        Router,
        RouterError,
    >)
        ensures
            r is Ok <==> spec_no_duplicates(
                spec_route_uris(spec_joined_routes(context@, routes@)),
            ),
            r matches Ok(router) ==> router.spec_routes() == spec_joined_routes(
                context@,
                routes@,
            ),
            r matches Err(e) ==> exists|i: int, j: int|
                #![trigger spec_route_uris(spec_joined_routes(context@, routes@))[i],
                spec_route_uris(spec_joined_routes(context@, routes@))[j]]
                {
                    &&& 0 <= i < j < spec_route_uris(spec_joined_routes(context@, routes@)).len()
                    &&& spec_route_uris(spec_joined_routes(context@, routes@))[i]
                        == spec_route_uris(spec_joined_routes(context@, routes@))[j]
                    &&& spec_route_uris(spec_joined_routes(context@, routes@))[j] == e@
                },
    {
        let ghost orig = routes@;
        let ghost joined = spec_joined_routes(context@, orig);
        let mut remaining = routes;
        let mut built: Vec<(String, RequestHandler)> = Vec::new();
        while remaining.len() > 0
            invariant
                built.len() + remaining.len() == orig.len(),
                remaining@ == orig.skip(built.len() as int),
                built@.map(|i: int, p: (String, RequestHandler)| (p.0@, p.1)) == joined.take(
                    built.len() as int,
                ),
                spec_no_duplicates(spec_route_uris(joined.take(built.len() as int))),
                joined == spec_joined_routes(context@, orig),
                joined.len() == orig.len(),
                forall|i: int|
                    0 <= i < orig.len() ==> #[trigger] joined[i] == (
                    spec_join_context(context@, orig[i].0@),
                    orig[i].1,
                    ),
            decreases remaining.len(),
        {
            let ghost k = built.len() as int;
            let (suffix, handler) = remaining.remove(0);
            proof {
                assert(orig.skip(k)[0] == orig[k]);
                assert(orig.skip(k).drop_first() =~= orig.skip(k + 1));
            }
            let uri = Self::join_uri(context, &suffix);
            proof {
                assert(uri@ == joined[k].0);
            }
            let m = built.len();
            let mut idx: usize = 0;
            while idx < m
                invariant
                    0 <= idx <= m,
                    m == built.len(),
                    m == k,
                    built@.map(|i: int, p: (String, RequestHandler)| (p.0@, p.1)) == joined.take(
                        k,
                    ),
                    uri@ == joined[k].0,
                    0 <= k < joined.len(),
                    joined == spec_joined_routes(context@, orig),
                    joined.len() == orig.len(),
                    forall|j: int| 0 <= j < idx ==> (#[trigger] joined[j]).0 != uri@,
                decreases m - idx,
            {
                proof {
                    assert(joined.take(k)[idx as int] == (built@[idx as int].0@, built@[
                        idx as int].1));
                }
                if built[idx].0 == uri {
                    proof {
                        let uris = spec_route_uris(spec_joined_routes(context@, orig));
                        assert(built@.map(|i: int, p: (String, RequestHandler)| (p.0@, p.1))[
                            idx as int] == (built@[idx as int].0@, built@[idx as int].1));
                        assert(joined.take(k)[idx as int] == joined[idx as int]);
                        assert(joined[idx as int].0 == uri@);
                        assert(uris[idx as int] == joined[idx as int].0);
                        assert(uris[k] == joined[k].0);
                        assert(0 <= idx as int && (idx as int) < k && k < uris.len());
                        assert(uris[idx as int] == uris[k] && uris[k] == uri@);
                        assert(!spec_no_duplicates(uris)) by {
                            assert(uris[idx as int] == uris[k]);
                        }
                        assert(exists|i: int, j: int|
                            #![trigger uris[i], uris[j]]
                            {
                                &&& 0 <= i < j < uris.len()
                                &&& uris[i] == uris[j]
                                &&& uris[j] == uri@
                            }) by {
                            assert(0 <= idx as int && (idx as int) < k && k < uris.len() && uris[idx as int]
                                == uris[k] && uris[k] == uri@);
                        }
                    }
                    return Err(RouterError::UriCollision(uri));
                }
                idx = idx + 1;
            }
            built.push((uri, handler));
            proof {
                assert(built@.map(|i: int, p: (String, RequestHandler)| (p.0@, p.1)) =~= joined
                    .take(k + 1));
                let uris_new = spec_route_uris(joined.take(k + 1));
                assert forall|i: int, j: int| 0 <= i < j < uris_new.len() implies uris_new[i]
                    != uris_new[j] by {
                    let uris_old = spec_route_uris(joined.take(k));
                    if j < k {
                        assert(uris_old[i] == uris_new[i] && uris_old[j] == uris_new[j]);
                    } else {
                        assert(uris_new[j] == joined[k].0);
                        assert(uris_new[i] == joined[i].0);
                    }
                }
            }
        }
        proof {
            assert(joined.take(orig.len() as int) =~= joined);
        }
        Ok(Router { routes: built })
    }

    fn find_route(&self, uri: &String) -> (r: Option<usize>)
        ensures
            r matches Some(i) ==> i < self.spec_routes().len() && spec_lookup(
                self.spec_routes(),
                uri@,
            ) == Some(self.spec_routes()[i as int].1),
            r is None ==> spec_lookup(self.spec_routes(), uri@) is None,
    {
        let n = self.routes.len();
        let mut i: usize = 0;
        while i < n
            invariant
                0 <= i <= n,
                n == self.routes@.len(),
                self.spec_routes().len() == n,
                forall|j: int|
                    0 <= j < n ==> #[trigger] self.spec_routes()[j] == (
                    self.routes@[j].0@,
                    self.routes@[j].1,
                    ),
                forall|j: int| 0 <= j < i ==> (#[trigger] self.spec_routes()[j]).0 != uri@,
            decreases n - i,
        {
            if self.routes[i].0 == *uri {
                proof {
                    lemma_lookup_skip(self.spec_routes(), uri@, i as int);
                    assert(self.spec_routes().skip(i as int)[0] == self.spec_routes()[i as int]);
                }
                return Some(i);
            }
            i = i + 1;
        }
        proof {
            lemma_lookup_skip(self.spec_routes(), uri@, n as int);
            assert(self.spec_routes().skip(n as int) =~= Seq::<(Seq<char>, RequestHandler)>::empty());
        }
        None
    }

    /// Routes one request: a missing URI is a 400 and no handler runs, a
    /// URI absent from the table is a 404, and otherwise the matched
    /// handler decides — immediately for the synchronous handlers, or by
    /// handing back the command to execute.
    pub fn handle<'a>(&'a self, request: FastCGIRequest) -> (r: HandlerAction<'a>)
        ensures
            request@.request_uri is None ==> (r matches HandlerAction::Respond(resp) && resp@
                == spec_status_code_response(STATUS_BAD_REQUEST)),
            request@.request_uri matches Some(uri) ==> match spec_lookup(
                self.spec_routes(),
                uri,
            ) {
                None => r matches HandlerAction::Respond(resp) && resp@
                    == spec_status_code_response(STATUS_NOT_FOUND),
                Some(handler) => match handler {
                    RequestHandler::AllCommands(h) => r matches HandlerAction::Respond(resp)
                        && resp@ == spec_all_commands_response(h),
                    RequestHandler::RequestInfo(_) => r matches HandlerAction::Respond(resp)
                        && resp@ == spec_request_info_response(request@),
                    RequestHandler::RunCommand(h) => r matches HandlerAction::RunCommand(h2) && *h2
                        == h,
                },
            },
    {
        let found: Option<usize> = match request.request_uri() {
            None => {
                return HandlerAction::Respond(build_status_code_response(STATUS_BAD_REQUEST));
            },
            Some(uri) => self.find_route(uri),
        };
        match found {
            None => HandlerAction::Respond(build_status_code_response(STATUS_NOT_FOUND)),
            Some(i) => {
                proof {
                    assert(self.spec_routes()[i as int] == (self.routes@[i as int].0@, self.routes@[
                        i as int].1));
                }
                match &self.routes[i].1 {
                    RequestHandler::AllCommands(h) => HandlerAction::Respond(h.handle(request)),
                    RequestHandler::RequestInfo(h) => HandlerAction::Respond(h.handle(request)),
                    RequestHandler::RunCommand(h) => HandlerAction::RunCommand(h),
                }
            },
        }
    }
}

} // verus!
