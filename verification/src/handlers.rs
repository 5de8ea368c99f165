//! Request handlers and their wiring.
//!
//! The handler set is fixed at compile time, so dispatch is a closed tagged
//! union: the router, the command-list handler, the run-command handler,
//! and the request diagnostics handler.

pub mod commands;
pub mod request_info;
pub mod route;
pub mod utils;

use vstd::prelude::*;

use crate::config::{Configuration, ConfigurationModel};

verus! {

/// One registered request handler.
pub enum RequestHandler {
    AllCommands(commands::AllCommandsHandler),
    RunCommand(commands::RunCommandHandler),
    RequestInfo(request_info::RequestInfoHandler),
}

/// Every URI this configuration registers, in registration order: the
/// command list, one URI per configured command, then the diagnostics
/// endpoint, each under the context prefix.
pub open spec fn spec_handler_route_uris(m: ConfigurationModel) -> Seq<Seq<char>> {
    Seq::new(
        m.commands.commands.len() + 2,
        |i: int|
            if i == 0 {
                route::spec_join_context(m.context, "commands"@)
            } else if i <= m.commands.commands.len() {
                route::spec_join_context(m.context, "commands/"@ + m.commands.commands[i - 1].id)
            } else {
                route::spec_join_context(m.context, "request_info"@)
            },
    )
}

/// Builds the full route table under the configured context. Succeeds
/// exactly when no two registered URIs collide; the router then maps the
/// command-list URI to the cached list payload, each command URI to its
/// run-command handler, and the diagnostics URI to the echo handler.
pub fn create_handlers(configuration: &Configuration) -> (r: Result<
    route::Router,
    route::RouterError,
>)
    ensures
        r is Ok <==> route::spec_no_duplicates(spec_handler_route_uris(configuration@)),
        r matches Ok(router) ==> {
            &&& router.spec_routes().len() == configuration@.commands.commands.len() + 2
            &&& route::spec_route_uris(router.spec_routes()) == spec_handler_route_uris(
                configuration@,
            )
            &&& (router.spec_routes()[0].1 matches RequestHandler::AllCommands(h) && h@
                == commands::spec_commands_json(configuration@.commands.commands))
            &&& forall|i: int|
                0 <= i < configuration@.commands.commands.len() ==> ((
                #[trigger] router.spec_routes()[i + 1]).1 matches RequestHandler::RunCommand(h)
                    && h@ == configuration@.commands.commands[i])
            &&& router.spec_routes()[configuration@.commands.commands.len() as int + 1].1 is RequestInfo
        },
{
    let mut routes = commands::create_routes(configuration.command_configuration());
    let ghost command_routes = routes@;
    let mut info_routes = request_info::create_routes();
    let ghost diagnostics_routes = info_routes@;
    routes.append(&mut info_routes);
    let ghost combined = routes@;
    let ghost ctx = configuration@.context;
    let ghost cmds = configuration@.commands.commands;
    proof {
        assert(combined.len() == cmds.len() + 2);
        let joined = route::spec_joined_routes(ctx, combined);
        let uris = route::spec_route_uris(joined);
        assert forall|i: int| 0 <= i < uris.len() implies uris[i] == spec_handler_route_uris(
            configuration@,
        )[i] by {
            assert(joined[i] == (route::spec_join_context(ctx, combined[i].0@), combined[i].1));
            if i == 0 {
                assert(combined[0].0@ == "commands"@);
            } else if i <= cmds.len() {
                let j = i - 1;
                assert(command_routes[j + 1].0@ == "commands/"@ + cmds[j].id);
                assert(combined[i] == command_routes[i]);
            } else {
                assert(combined[i] == routes@[i]);
                assert(combined[i].0@ == "request_info"@);
            }
        }
        assert(uris =~= spec_handler_route_uris(configuration@));
    }
    let context_configuration = configuration.context_configuration();
    let result = route::Router::new(context_configuration.context().as_str(), routes);
    proof {
        let joined = route::spec_joined_routes(ctx, combined);
        if result is Ok {
            let router = result->Ok_0;
            assert(router.spec_routes() == joined);
            assert forall|i: int| 0 <= i < cmds.len() implies ((
            #[trigger] router.spec_routes()[i + 1]).1 matches RequestHandler::RunCommand(h) && h@
                == cmds[i]) by {
                assert(joined[i + 1] == (
                    route::spec_join_context(ctx, combined[i + 1].0@),
                    combined[i + 1].1,
                ));
            }
            assert(joined[0].1 == combined[0].1);
            assert(joined[cmds.len() as int + 1].1 == combined[cmds.len() as int + 1].1);
        }
    }
    result
}

} // verus!
